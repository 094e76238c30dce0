use crate::flylang::errors::LangResult;
use crate::flylang::lexer::tokens::{duplicate_tokens, Literals, part_view, StringItem, Tokens};
use crate::flylang::module::slice::SliceView;
use crate::flylang::parser::{missing, Parser, previous_view};
use crate::flylang::parser::ast::{Node, NodeView};
use crate::flylang::parser::ast::expressions::{Expressions, ExpressionsView};
use crate::flylang::parser::ast::instructions::Instructions;
use crate::flylang::parser::grammar::{literal_rule, parts_at, program, string_parts};
use crate::flylang::parser::parsable::expression_of;
use vstd::prelude::*;

verus! {

/// The kind of a node that is a word, and nothing more.
#[derive(Debug, Clone, Copy, PartialEq, Eq, Structural)]
pub struct Word;

/// A part of a string: text, or an expression whose value joins the text.
#[derive(Debug)]
pub enum ParsedStringItem {
    Literal(String),
    Expression(Box<Node<Expressions>>),
}

/// What a `ParsedStringItem` is, mathematically.
pub enum ParsedStringItemView {
    Literal(Seq<char>),
    Expression(Box<NodeView<ExpressionsView>>),
}

impl ParsedStringItem {
    pub open spec fn view(self) -> ParsedStringItemView
        decreases self,
    {
        match self {
            ParsedStringItem::Literal(inner) => ParsedStringItemView::Literal(inner@),
            ParsedStringItem::Expression(expression) => ParsedStringItemView::Expression(Box::new((*expression)@)),
        }
    }

    /// An independent copy.
    pub fn duplicate(&self) -> (r: Self)
        ensures
            r@ == self@,
        decreases self,
    {
        match self {
            ParsedStringItem::Literal(inner) => ParsedStringItem::Literal(inner.clone()),
            ParsedStringItem::Expression(expression) => ParsedStringItem::Expression(Box::new(expression.duplicate())),
        }
    }
}

impl ParsedStringItemView {
    /// Whether every part lies inside `outer`, the slice of the node that holds this, and
    /// is itself tidy.
    pub open spec fn tidy(self, outer: SliceView) -> bool
        decreases self,
    {
        match self {
            ParsedStringItemView::Literal(_) => true,
            ParsedStringItemView::Expression(expression) => outer.holds(expression.location) && expression.kind.tidy(expression.location),
        }
    }
}

/// A literal, as the parser knows it.
#[derive(Debug)]
pub enum ParsedLiterals {
    Word,
    True,
    False,
    Number,
    Empty,
    String(Vec<Node<ParsedStringItem>>),
}

/// What a `ParsedLiterals` is, mathematically.
pub enum ParsedLiteralsView {
    Word,
    True,
    False,
    Number,
    Empty,
    String(Seq<NodeView<ParsedStringItemView>>),
}

impl ParsedLiterals {
    pub open spec fn view(self) -> ParsedLiteralsView
        decreases self,
    {
        match self {
            ParsedLiterals::Word => ParsedLiteralsView::Word,
            ParsedLiterals::True => ParsedLiteralsView::True,
            ParsedLiterals::False => ParsedLiteralsView::False,
            ParsedLiterals::Number => ParsedLiteralsView::Number,
            ParsedLiterals::Empty => ParsedLiteralsView::Empty,
            ParsedLiterals::String(inner) => ParsedLiteralsView::String(string_item_views(inner@)),
        }
    }

    /// An independent copy.
    pub fn duplicate(&self) -> (r: Self)
        ensures
            r@ == self@,
        decreases self,
    {
        match self {
            ParsedLiterals::Word => ParsedLiterals::Word,
            ParsedLiterals::True => ParsedLiterals::True,
            ParsedLiterals::False => ParsedLiterals::False,
            ParsedLiterals::Number => ParsedLiterals::Number,
            ParsedLiterals::Empty => ParsedLiterals::Empty,
            ParsedLiterals::String(inner) => ParsedLiterals::String(duplicate_string_items(inner)),
        }
    }
}

impl ParsedLiteralsView {
    /// Whether every part lies inside `outer`, the slice of the node that holds this, and
    /// is itself tidy.
    pub open spec fn tidy(self, outer: SliceView) -> bool
        decreases self,
    {
        match self {
            ParsedLiteralsView::Word => true,
            ParsedLiteralsView::True => true,
            ParsedLiteralsView::False => true,
            ParsedLiteralsView::Number => true,
            ParsedLiteralsView::Empty => true,
            ParsedLiteralsView::String(inner) => (forall|i: int|
                0 <= i < inner.len() ==> outer.holds((#[trigger] inner[i]).location)
                    && inner[i].kind.tidy(inner[i].location)),
        }
    }
}

impl Node<ParsedStringItem> {
    pub open spec fn view(self) -> NodeView<ParsedStringItemView>
        decreases self,
    {
        NodeView { kind: self.kind@, location: self.location@ }
    }

    /// An independent copy.
    pub fn duplicate(&self) -> (r: Self)
        ensures
            r@ == self@,
        decreases self,
    {
        Node { kind: self.kind.duplicate(), location: self.location.duplicate() }
    }
}

impl Node<Word> {
    pub open spec fn view(self) -> NodeView<Word>
        decreases self,
    {
        NodeView { kind: self.kind, location: self.location@ }
    }

    /// An independent copy.
    pub fn duplicate(&self) -> (r: Self)
        ensures
            r@ == self@,
        decreases self,
    {
        Node { kind: self.kind, location: self.location.duplicate() }
    }
}

/// The views of the nodes of `nodes`, in order.
pub open spec fn string_item_views(nodes: Seq<Node<ParsedStringItem>>) -> Seq<NodeView<ParsedStringItemView>>
    decreases nodes,
{
    Seq::new(
        nodes.len(),
        |i: int|
            if 0 <= i < nodes.len() {
                nodes[i]@
            } else {
                arbitrary()
            },
    )
}

/// An independent copy of a list of nodes.
pub fn duplicate_string_items(nodes: &Vec<Node<ParsedStringItem>>) -> (r: Vec<Node<ParsedStringItem>>)
    ensures
        string_item_views(r@) == string_item_views(nodes@),
    decreases nodes,
{
    let mut out: Vec<Node<ParsedStringItem>> = Vec::new();
    let mut at: usize = 0;
    while at < nodes.len()
        invariant
            at <= nodes.len(),
            out@.len() == at,
            forall|i: int| 0 <= i < at ==> out@[i]@ == nodes@[i]@,
        decreases nodes.len() - at,
    {
        let copy = nodes[at].duplicate();
        out.push(copy);
        at = at + 1;
    }
    assert(string_item_views(out@) =~= string_item_views(nodes@));
    out
}

/// The views of a list with one more node are those of the list, then that of the node.
pub proof fn lemma_string_item_views_push(nodes: Seq<Node<ParsedStringItem>>, node: Node<ParsedStringItem>)
    ensures
        string_item_views(nodes.push(node)) == string_item_views(nodes).push(node@),
{
    assert(string_item_views(nodes.push(node)) =~= string_item_views(nodes).push(node@));
}

/// The views of the nodes of `nodes`, in order.
pub open spec fn word_views(nodes: Seq<Node<Word>>) -> Seq<NodeView<Word>>
    decreases nodes,
{
    Seq::new(
        nodes.len(),
        |i: int|
            if 0 <= i < nodes.len() {
                nodes[i]@
            } else {
                arbitrary()
            },
    )
}

/// An independent copy of a list of nodes.
pub fn duplicate_words(nodes: &Vec<Node<Word>>) -> (r: Vec<Node<Word>>)
    ensures
        word_views(r@) == word_views(nodes@),
    decreases nodes,
{
    let mut out: Vec<Node<Word>> = Vec::new();
    let mut at: usize = 0;
    while at < nodes.len()
        invariant
            at <= nodes.len(),
            out@.len() == at,
            forall|i: int| 0 <= i < at ==> out@[i]@ == nodes@[i]@,
        decreases nodes.len() - at,
    {
        let copy = nodes[at].duplicate();
        out.push(copy);
        at = at + 1;
    }
    assert(word_views(out@) =~= word_views(nodes@));
    out
}

/// The views of a list with one more node are those of the list, then that of the node.
pub proof fn lemma_word_views_push(nodes: Seq<Node<Word>>, node: Node<Word>)
    ensures
        word_views(nodes.push(node)) == word_views(nodes).push(node@),
{
    assert(word_views(nodes.push(node)) =~= word_views(nodes).push(node@));
}

impl Node<ParsedLiterals> {
    pub open spec fn view(self) -> NodeView<ParsedLiteralsView>
        decreases self,
    {
        NodeView { kind: self.kind@, location: self.location@ }
    }

    /// An independent copy.
    pub fn duplicate(&self) -> (r: Self)
        ensures
            r@ == self@,
        decreases self,
    {
        Node { kind: self.kind.duplicate(), location: self.location.duplicate() }
    }
}

impl ParsedLiterals {
    /// The parts of the string that the token at `at` is.
    pub(crate) fn string_items(parser: &Parser, at: usize) -> (r: LangResult<
        Vec<Node<ParsedStringItem>>,
    >)
        requires
            at < parser@.tokens.len(),
        ensures
            match string_parts(parser@.source(), at as int, 0, Seq::empty()) {
                Ok(parts) => r is Ok && string_item_views(r->Ok_0@) == parts,
                Err(error) => r is Err && r->Err_0@ == error,
            },
        decreases parser@.tokens, parser@.tokens.len() - at, 2int, parts_at(
            parser@.source(),
            at as int,
        ).len(),
    {
        let ghost source = parser@.source();
        let mut found: Vec<Node<ParsedStringItem>> = Vec::new();
        assert(string_item_views(found@) =~= Seq::empty());
        let token = parser.token(at);
        let items = match &token.kind {
            Tokens::Literal(Literals::String(items)) => items,
            _ => {
                proof {
                    reveal(string_parts);
                }
                return Ok(found);
            },
        };
        let mut from: usize = 0;
        while from < items.len()
            invariant
                source == parser@.source(),
                at < source.tokens.len(),
                from <= items.len(),
                token.kind == Tokens::Literal(Literals::String(*items)),
                crate::flylang::lexer::tokens::token_view(*token) == source.tokens[at as int],
                string_parts(source, at as int, 0, Seq::empty()) == string_parts(
                    source,
                    at as int,
                    from as int,
                    string_item_views(found@),
                ),
            decreases items.len() - from,
        {
            proof {
                reveal(string_parts);
                reveal(program);
            }
            let item = &items[from];
            assert(part_view(*item) == parts_at(source, at as int)[from as int]);
            let kind = match &item.kind {
                StringItem::Literal(text) => ParsedStringItem::Literal(text.clone()),
                StringItem::Expression(tokens) => {
                    let inner = Parser::new(parser.module(), duplicate_tokens(tokens));
                    let instructions = match inner.program() {
                        Err(error) => {
                            return Err(error);
                        },
                        Ok(instructions) => instructions,
                    };
                    match expression_of(
                        &instructions,
                        &item.location,
                        "Expected a single expression",
                    ) {
                        Err(error) => {
                            return Err(error);
                        },
                        Ok(expression) => ParsedStringItem::Expression(Box::new(expression)),
                    }
                },
            };
            let part = Node { kind, location: item.location.duplicate() };
            proof {
                lemma_string_item_views_push(found@, part);
            }
            found.push(part);
            from = from + 1;
        }
        proof {
            reveal(string_parts);
        }
        Ok(found)
    }

    /// The literal that the token at `at` is.
    pub fn parse(parser: &Parser, at: usize, previous: Option<Node<Instructions>>) -> (r:
        LangResult<(Node<ParsedLiterals>, usize)>)
        ensures
            match literal_rule(parser@.source(), at as int, previous_view(previous)) {
                Ok((found, end)) => r is Ok && r->Ok_0.0@ == found && r->Ok_0.1 == end
                    && parser@.source().forward(at as int, end),
                Err(error) => r is Err && r->Err_0@ == error,
            },
        decreases parser@.tokens, parser@.tokens.len() - at, 5int,
    {
        proof {
            reveal(literal_rule);
            reveal(string_parts);
        }
        if at >= parser.len() {
            return Err(missing(parser.tail(), "a literal", None));
        }
        if previous.is_some() {
            return Err(parser.unexpected(at));
        }
        let token = parser.token(at);
        let literal = match &token.kind {
            Tokens::Literal(Literals::Empty) => ParsedLiterals::Empty,
            Tokens::Literal(Literals::False) => ParsedLiterals::False,
            Tokens::Literal(Literals::True) => ParsedLiterals::True,
            Tokens::Literal(Literals::Number) => ParsedLiterals::Number,
            Tokens::Literal(Literals::Word) => ParsedLiterals::Word,
            Tokens::Literal(Literals::String(_)) => {
                match Self::string_items(parser, at) {
                    Err(error) => {
                        return Err(error);
                    },
                    Ok(parts) => ParsedLiterals::String(parts),
                }
            },
            _ => {
                return Err(parser.unexpected(at));
            },
        };
        Ok((Node { kind: literal, location: token.location.duplicate() }, at + 1))
    }
}

} // verus!
