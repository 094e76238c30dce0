use crate::flylang::errors::LangResult;
use crate::flylang::lexer::ranges::{in_ranges, IS_FILE_LOCATION_IF_STARTS_WITH};
use crate::flylang::lexer::tokens::{Keywords, Literals, StringItem, Toggleable, Tokens};
use crate::flylang::module::slice::SliceView;
use crate::flylang::parser::{missing, Parser, previous_view, unable};
use crate::flylang::parser::ast::{Node, NodeView};
use crate::flylang::parser::ast::expressions::literals::{duplicate_words, Word, word_views};
use crate::flylang::parser::ast::instructions::Instructions;
use crate::flylang::parser::grammar::{
    enclosed, Splitter, Stopper, use_emplacement, use_getters, use_rule, use_source,
};
use crate::flylang::parser::mods::BehaviorSet;
use crate::flylang::parser::parsable::words_of;
use vstd::prelude::*;
use vstd::string::StrSliceExecFns;

verus! {

/// Where imported content comes from: a package, by its name, or a file, by its path.
#[derive(Debug)]
pub enum PackageSource {
    Package(String),
    File(String),
}

/// What a `PackageSource` is, mathematically.
pub enum PackageSourceView {
    Package(Seq<char>),
    File(Seq<char>),
}

impl PackageSource {
    pub open spec fn view(self) -> PackageSourceView
        decreases self,
    {
        match self {
            PackageSource::Package(inner) => PackageSourceView::Package(inner@),
            PackageSource::File(inner) => PackageSourceView::File(inner@),
        }
    }

    /// An independent copy.
    pub fn duplicate(&self) -> (r: Self)
        ensures
            r@ == self@,
        decreases self,
    {
        match self {
            PackageSource::Package(inner) => PackageSource::Package(inner.clone()),
            PackageSource::File(inner) => PackageSource::File(inner.clone()),
        }
    }
}

impl PackageSourceView {
    /// Whether every part lies inside `outer`, the slice of the node that holds this, and
    /// is itself tidy.
    pub open spec fn tidy(self, outer: SliceView) -> bool
        decreases self,
    {
        match self {
            PackageSourceView::Package(_) => true,
            PackageSourceView::File(_) => true,
        }
    }
}

/// What is taken of the imported content.
#[derive(Debug)]
pub enum PackageIncludedContent {
    All,
    Only(Vec<Node<Word>>),
}

/// What a `PackageIncludedContent` is, mathematically.
pub enum PackageIncludedContentView {
    All,
    Only(Seq<NodeView<Word>>),
}

impl PackageIncludedContent {
    pub open spec fn view(self) -> PackageIncludedContentView
        decreases self,
    {
        match self {
            PackageIncludedContent::All => PackageIncludedContentView::All,
            PackageIncludedContent::Only(inner) => PackageIncludedContentView::Only(word_views(inner@)),
        }
    }

    /// An independent copy.
    pub fn duplicate(&self) -> (r: Self)
        ensures
            r@ == self@,
        decreases self,
    {
        match self {
            PackageIncludedContent::All => PackageIncludedContent::All,
            PackageIncludedContent::Only(inner) => PackageIncludedContent::Only(duplicate_words(inner)),
        }
    }
}

impl PackageIncludedContentView {
    /// Whether every part lies inside `outer`, the slice of the node that holds this, and
    /// is itself tidy.
    pub open spec fn tidy(self, outer: SliceView) -> bool
        decreases self,
    {
        match self {
            PackageIncludedContentView::All => true,
            PackageIncludedContentView::Only(inner) => (forall|i: int|
                0 <= i < inner.len() ==> outer.holds((#[trigger] inner[i]).location)),
        }
    }
}

/// Where the imported content goes.
#[derive(Debug)]
pub enum PackageContentEmplacement {
    Global,
    Variable(Node<Word>),
}

/// What a `PackageContentEmplacement` is, mathematically.
pub enum PackageContentEmplacementView {
    Global,
    Variable(NodeView<Word>),
}

impl PackageContentEmplacement {
    pub open spec fn view(self) -> PackageContentEmplacementView
        decreases self,
    {
        match self {
            PackageContentEmplacement::Global => PackageContentEmplacementView::Global,
            PackageContentEmplacement::Variable(word) => PackageContentEmplacementView::Variable(word@),
        }
    }

    /// An independent copy.
    pub fn duplicate(&self) -> (r: Self)
        ensures
            r@ == self@,
        decreases self,
    {
        match self {
            PackageContentEmplacement::Global => PackageContentEmplacement::Global,
            PackageContentEmplacement::Variable(word) => PackageContentEmplacement::Variable(word.duplicate()),
        }
    }
}

impl PackageContentEmplacementView {
    /// Whether every part lies inside `outer`, the slice of the node that holds this, and
    /// is itself tidy.
    pub open spec fn tidy(self, outer: SliceView) -> bool
        decreases self,
    {
        match self {
            PackageContentEmplacementView::Global => true,
            PackageContentEmplacementView::Variable(word) => outer.holds(word.location),
        }
    }
}

/// An importation.
#[derive(Debug)]
pub struct Package {
    pub source: PackageSource,
    pub included: PackageIncludedContent,
    pub emplacement: PackageContentEmplacement,
}

/// What a `Package` is, mathematically.
pub struct PackageView {
    pub source: PackageSourceView,
    pub included: PackageIncludedContentView,
    pub emplacement: PackageContentEmplacementView,
}

impl Package {
    pub open spec fn view(self) -> PackageView
        decreases self,
    {
        PackageView {
            source: self.source@,
            included: self.included@,
            emplacement: self.emplacement@,
        }
    }

    /// An independent copy.
    pub fn duplicate(&self) -> (r: Self)
        ensures
            r@ == self@,
        decreases self,
    {
        Package {
            source: self.source.duplicate(),
            included: self.included.duplicate(),
            emplacement: self.emplacement.duplicate(),
        }
    }
}

impl PackageView {
    /// Whether every part lies inside `outer`, the slice of the node that holds this, and
    /// is itself tidy.
    pub open spec fn tidy(self, outer: SliceView) -> bool
        decreases self,
    {
        &&& self.source.tidy(outer)
        &&& self.included.tidy(outer)
        &&& self.emplacement.tidy(outer)
    }
}

impl Node<Package> {
    pub open spec fn view(self) -> NodeView<PackageView>
        decreases self,
    {
        NodeView { kind: self.kind@, location: self.location@ }
    }

    /// An independent copy.
    pub fn duplicate(&self) -> (r: Self)
        ensures
            r@ == self@,
        decreases self,
    {
        Node { kind: self.kind.duplicate(), location: self.location.duplicate() }
    }
}

impl Package {
    /// What the `use` takes of what it imports, given the token at `at` that follows the
    /// keyword, and where its source stands.
    pub(crate) fn parse_getters(parser: &Parser, at: usize) -> (r: LangResult<
        (PackageIncludedContent, usize),
    >)
        requires
            at <= parser@.tokens.len(),
        ensures
            match use_getters(parser@.source(), at as int) {
                Ok((found, end)) => r is Ok && r->Ok_0.0@ == found && r->Ok_0.1 == end && at <= end
                    <= parser@.tokens.len(),
                Err(error) => r is Err && r->Err_0@ == error,
            },
        decreases parser@.tokens, parser@.tokens.len() - at, 4int,
    {
        proof {
            reveal(use_getters);
            reveal(enclosed);
        }
        let len = parser.len();
        if at >= len || !matches!(
            parser.token(at).kind,
            Tokens::Object(Toggleable::Openning) | Tokens::Block(Toggleable::Openning)
        ) {
            return Ok((PackageIncludedContent::All, at));
        }
        let ender = if matches!(parser.token(at).kind, Tokens::Object(_)) {
            Stopper::Object
        } else {
            Stopper::Block
        };
        let (branches, close) = match parser.enclosed(
            at + 1,
            ender,
            Splitter::ArgSeparator,
            BehaviorSet::new(),
        ) {
            Err(error) => {
                return Err(error);
            },
            Ok(found) => found,
        };
        let closer = parser.location(close);
        let names = match words_of(
            &branches,
            0,
            branches.len(),
            &closer,
            "Invalid syntax inside the block",
        ) {
            Err(error) => {
                return Err(error);
            },
            Ok(names) => names,
        };
        if close + 1 < len && matches!(parser.token(close + 1).kind, Tokens::Keyword(Keywords::From)) {
            return Ok((PackageIncludedContent::Only(names), close + 2));
        }
        Err(missing(closer, "from <module>", parser.text(close + 1)))
    }

    /// Where what the `use` imports comes from, given the token at `at`.
    pub(crate) fn parse_location(parser: &Parser, at: usize) -> (r: LangResult<PackageSource>)
        requires
            parser@.tokens.len() > 0,
        ensures
            match use_source(parser@.source(), at as int) {
                Ok(found) => r is Ok && r->Ok_0@ == found && at < parser@.tokens.len(),
                Err(error) => r is Err && r->Err_0@ == error,
            },
    {
        let len = parser.len();
        if at >= len {
            return Err(parser.unexpected(len - 1));
        }
        let token = parser.token(at);
        let parts = match &token.kind {
            Tokens::Literal(Literals::String(parts)) => parts,
            _ => {
                return Err(parser.unexpected(at));
            },
        };
        if parts.len() != 1 {
            return Err(
                unable(
                    token.location.duplicate(),
                    "Expected a string to describe where to find the package. Note that the string must not include expressions in it.",
                ),
            );
        }
        let text = match &parts[0].kind {
            StringItem::Literal(text) => text,
            _ => {
                return Err(
                    unable(
                        token.location.duplicate(),
                        "Expected a string to describe where to find the package. Note that the string must not include expressions in it.",
                    ),
                );
            },
        };
        if text.as_str().unicode_len() == 0 {
            return Err(
                unable(
                    token.location.duplicate(),
                    "Invalid package path (It must be a string that does not contain expressions).",
                ),
            );
        }
        if in_ranges(IS_FILE_LOCATION_IF_STARTS_WITH, text.as_str().get_char(0)) {
            Ok(PackageSource::File(text.clone()))
        } else {
            Ok(PackageSource::Package(text.clone()))
        }
    }

    /// Where what the `use` imports goes, given the token at `at` that follows its source,
    /// and where the `use` ends.
    pub(crate) fn parse_emplacement(parser: &Parser, at: usize) -> (r: LangResult<
        (PackageContentEmplacement, usize),
    >)
        requires
            at <= parser@.tokens.len(),
        ensures
            match use_emplacement(parser@.source(), at as int) {
                Ok((found, end)) => r is Ok && r->Ok_0.0@ == found && r->Ok_0.1 == end && at <= end
                    <= parser@.tokens.len(),
                Err(error) => r is Err && r->Err_0@ == error,
            },
    {
        let len = parser.len();
        if at >= len {
            return Ok((PackageContentEmplacement::Global, at));
        }
        if matches!(parser.token(at).kind, Tokens::Keyword(Keywords::In)) && at + 1 < len
            && matches!(parser.token(at + 1).kind, Tokens::Literal(Literals::Word)) {
            return Ok(
                (
                    PackageContentEmplacement::Variable(
                        Node { kind: Word, location: parser.location(at + 1) },
                    ),
                    at + 2,
                ),
            );
        }
        if !matches!(parser.token(at).kind, Tokens::EndOfInstruction) {
            return Err(parser.unexpected(at));
        }
        Ok((PackageContentEmplacement::Global, at))
    }

    /// An importation, where `use` is the token at `at`.
    pub fn parse(parser: &Parser, at: usize, previous: Option<Node<Instructions>>) -> (r:
        LangResult<(Node<Package>, usize)>)
        ensures
            match use_rule(parser@.source(), at as int, previous_view(previous)) {
                Ok((found, end)) => r is Ok && r->Ok_0.0@ == found && r->Ok_0.1 == end
                    && parser@.source().forward(at as int, end),
                Err(error) => r is Err && r->Err_0@ == error,
            },
        decreases parser@.tokens, parser@.tokens.len() - at, 5int,
    {
        proof {
            reveal(use_rule);
            reveal(use_getters);
        }
        let len = parser.len();
        if at >= len {
            return Err(missing(parser.tail(), "use", None));
        }
        if !matches!(parser.token(at).kind, Tokens::Keyword(Keywords::Use)) {
            return Err(parser.unexpected(at));
        }
        if previous.is_some() {
            return Err(parser.unexpected(at));
        }
        if at + 1 >= len {
            return Err(missing(parser.location(at), "Package location", None));
        }
        let (included, from) = match Self::parse_getters(parser, at + 1) {
            Err(error) => {
                return Err(error);
            },
            Ok(found) => found,
        };
        let source = match Self::parse_location(parser, from) {
            Err(error) => {
                return Err(error);
            },
            Ok(source) => source,
        };
        let (emplacement, end) = match Self::parse_emplacement(parser, from + 1) {
            Err(error) => {
                return Err(error);
            },
            Ok(found) => found,
        };
        let location = parser.location(at).join(&parser.token(end - 1).location);
        Ok((Node { kind: Package { source, included, emplacement }, location }, end))
    }
}

} // verus!
