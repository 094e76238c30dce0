use crate::flylang::errors::{LangError, LangErrorView, LangResult};
use crate::flylang::lexer::Lexer;
use crate::flylang::lexer::tokens::{
    duplicate_token, ScopeTarget, Toggleable, Token, token_view, token_views, Tokens, TokensView,
    TokenView,
};
use crate::flylang::module::{LangModule, ModuleView, share};
use crate::flylang::module::slice::LangModuleSlice;
use crate::flylang::parser::ast::Node;
use crate::flylang::parser::ast::instructions::{
    instruction_views, Instructions, lemma_instruction_views_push,
};
use crate::flylang::parser::errors::{Expected, UnableToParse, UnexpectedNode, UnexpectedToken};
use crate::flylang::parser::grammar::{
    Branch, branches_from, enclosed, expected, Instruction, program, scope_rule, ScopeFound, Source,
    Splitter, Stopper,
};
use crate::flylang::parser::mods::BehaviorSet;
use crate::flylang::utils::analyser::Analyser;
use std::rc::Rc;
use vstd::prelude::*;
use vstd::slice::slice_index_get;

pub mod ast;
pub mod errors;
pub mod grammar;
pub mod mods;
pub mod parsable;
pub mod tidy;

verus! {

/// What a parser is, mathematically: its module, its tokens, the window on the tokens,
/// the instructions that it has parsed, and its behaviors.
pub struct ParserView {
    pub module: ModuleView,
    pub tokens: Seq<TokenView<TokensView>>,
    pub start: int,
    pub end: int,
    pub parsed: Branch,
    pub behaviors: BehaviorSet,
}

impl ParserView {
    /// What the parser parses.
    pub open spec fn source(self) -> Source {
        Source { module: self.module, tokens: self.tokens }
    }
}

/// The views of the branches of `branches`, in order.
pub open spec fn branch_views(branches: Seq<Vec<Node<Instructions>>>) -> Seq<Branch> {
    Seq::new(branches.len(), |i: int| instruction_views(branches[i]@))
}

/// The views of a list with one more branch are those of the list, then that of the branch.
pub proof fn lemma_branch_views_push(
    branches: Seq<Vec<Node<Instructions>>>,
    branch: Vec<Node<Instructions>>,
)
    ensures
        branch_views(branches.push(branch)) == branch_views(branches).push(
            instruction_views(branch@),
        ),
{
    assert(branch_views(branches.push(branch)) =~= branch_views(branches).push(
        instruction_views(branch@),
    ));
}

/// The view of the instruction that stands before a token, if one does.
pub open spec fn previous_view(previous: Option<Node<Instructions>>) -> Option<Instruction> {
    match previous {
        Some(instruction) => Some(instruction@),
        None => None,
    }
}

/// The view of a text that may be missing.
pub open spec fn text_view(text: Option<String>) -> Option<Seq<char>> {
    match text {
        Some(text) => Some(text@),
        None => None,
    }
}

/// The error of something missing after `after`.
pub fn missing(after: LangModuleSlice, what: &str, found: Option<String>) -> (r: LangError)
    ensures
        r@ == expected(after@, what@, text_view(found)),
{
    LangError::Expected(Expected { after, expected: Some(what.to_owned()), but_found: found })
}

/// The error of a part of the module that makes no sense.
pub fn unable(location: LangModuleSlice, reason: &str) -> (r: LangError)
    ensures
        r@ == LangErrorView::UnableToParse(location@, reason@),
{
    LangError::UnableToParse(UnableToParse(location, reason.to_owned()))
}

/// The error of a node that cannot stand where it does.
pub fn unexpected_node(node: Node<Instructions>) -> (r: LangError)
    ensures
        r@ == LangErrorView::UnexpectedNode(node@),
{
    LangError::UnexpectedNode(UnexpectedNode(node))
}

/// A scope, as `Parser::scope` finds it: its target, its branches, and the positions of
/// the tokens that open and close it.
pub struct ScopeParts {
    pub target: Option<Node<ScopeTarget>>,
    pub branches: Vec<Vec<Node<Instructions>>>,
    pub open: usize,
    pub close: usize,
}

impl ScopeParts {
    pub open spec fn view(self) -> ScopeFound {
        ScopeFound {
            target: match self.target {
                Some(target) => Some(target@),
                None => None,
            },
            branches: branch_views(self.branches@),
            open: self.open as int,
            close: self.close as int,
        }
    }
}

/// Convert the tokens of a module to a list of instructions
#[derive(Debug)]
pub struct Parser {
    module: Rc<LangModule>,
    analyser: Analyser<Token<Tokens>>,
    parsed: Vec<Node<Instructions>>,
    behaviors: BehaviorSet,
}

impl Parser {
    pub closed spec fn view(&self) -> ParserView {
        ParserView {
            module: self.module@,
            tokens: token_views(self.analyser@.stream),
            start: self.analyser@.start,
            end: self.analyser@.end,
            parsed: instruction_views(self.parsed@),
            behaviors: self.behaviors,
        }
    }

    /// Create a new `Parser`
    pub fn new(module: &Rc<LangModule>, stream: Vec<Token<Tokens>>) -> (r: Self)
        ensures
            r@ == (ParserView {
                module: module@,
                tokens: token_views(stream@),
                start: 0,
                end: 0,
                parsed: Seq::empty(),
                behaviors: BehaviorSet::none(),
            }),
    {
        let r = Self {
            module: share(module),
            analyser: Analyser::new(stream),
            parsed: Vec::new(),
            behaviors: BehaviorSet::new(),
        };
        assert(instruction_views(r.parsed@) =~= Seq::empty());
        r
    }

    /// Get the parser's module
    pub fn module(&self) -> (r: &Rc<LangModule>)
        ensures
            r@ == self@.module,
    {
        &self.module
    }

    /// The number of tokens.
    pub fn len(&self) -> (r: usize)
        ensures
            r == self@.tokens.len(),
    {
        self.analyser.stream().len()
    }

    /// The token at `at`.
    pub fn token(&self, at: usize) -> (r: &Token<Tokens>)
        requires
            at < self@.tokens.len(),
        ensures
            token_view(*r) == self@.tokens[at as int],
    {
        slice_index_get(self.analyser.stream(), at)
    }

    /// The slice of the token at `at`.
    pub fn location(&self, at: usize) -> (r: LangModuleSlice)
        requires
            at < self@.tokens.len(),
        ensures
            r@ == self@.tokens[at as int].location,
    {
        self.token(at).location.duplicate()
    }

    /// The empty slice at the end of the module.
    pub fn tail(&self) -> (r: LangModuleSlice)
        ensures
            r@ == self@.source().tail(),
    {
        let end = self.module.len();
        LangModuleSlice::new_with(&self.module, end..end)
    }

    /// The slice of the token at `at`, or the end of the module where there is none.
    pub fn place(&self, at: usize) -> (r: LangModuleSlice)
        ensures
            r@ == self@.source().place(at as int),
    {
        if at < self.len() {
            self.location(at)
        } else {
            self.tail()
        }
    }

    /// The text of the token at `at`, if there is one.
    pub fn text(&self, at: usize) -> (r: Option<String>)
        ensures
            text_view(r) == self@.source().text(at as int),
    {
        if at < self.len() {
            Some(self.token(at).location.code().to_owned())
        } else {
            None
        }
    }

    /// The error of the token at `at`, which cannot stand there.
    pub fn unexpected(&self, at: usize) -> (r: LangError)
        requires
            at < self@.tokens.len(),
        ensures
            r@ == LangErrorView::UnexpectedToken(self@.tokens[at as int]),
    {
        LangError::UnexpectedToken(UnexpectedToken(duplicate_token(self.token(at))))
    }

    /// Parse multiple instructions from `at` on, and ends before the token that `stopper`
    /// stops at or where the tokens end.
    ///
    /// A token that `splitter` splits at is skipped, and the next instructions are placed
    /// in a new array of nodes.
    ///
    /// Each instruction is parsed under the behaviors `persistent`.
    pub fn branches(
        &self,
        at: usize,
        stopper: Stopper,
        splitter: Splitter,
        persistent: BehaviorSet,
    ) -> (r: LangResult<(Vec<Vec<Node<Instructions>>>, usize)>)
        ensures
            match branches_from(
                self@.source(),
                at as int,
                stopper,
                splitter,
                persistent,
                Seq::empty(),
                Seq::empty(),
            ) {
                Ok((branches, stop)) => r is Ok && branch_views(r->Ok_0.0@) == branches
                    && r->Ok_0.1 == stop && at <= stop && branches.len() >= 1,
                Err(error) => r is Err && r->Err_0@ == error,
            },
        decreases self@.tokens, self@.tokens.len() - at, 30int,
    {
        let ghost source = self@.source();
        let len = self.len();
        let mut result: Vec<Vec<Node<Instructions>>> = Vec::new();
        let mut analysing: Vec<Node<Instructions>> = Vec::new();
        let mut cursor: usize = at;
        proof {
            assert(branch_views(result@) =~= Seq::empty());
            assert(instruction_views(analysing@) =~= Seq::empty());
        }
        loop
            invariant
                source == self@.source(),
                len == source.tokens.len(),
                at <= cursor,
                branches_from(
                    source,
                    at as int,
                    stopper,
                    splitter,
                    persistent,
                    Seq::empty(),
                    Seq::empty(),
                ) == branches_from(
                    source,
                    cursor as int,
                    stopper,
                    splitter,
                    persistent,
                    branch_views(result@),
                    instruction_views(analysing@),
                ),
            decreases len - cursor,
        {
            proof {
                reveal(branches_from);
                reveal(crate::flylang::parser::grammar::instruction_rule);
            }
            if cursor >= len {
                proof {
                    lemma_branch_views_push(result@, analysing);
                }
                result.push(analysing);
                return Ok((result, cursor));
            }
            let token = self.token(cursor);
            if stopper.matches(&token.kind) {
                proof {
                    lemma_branch_views_push(result@, analysing);
                }
                result.push(analysing);
                return Ok((result, cursor));
            }
            if splitter.matches(&token.kind) {
                let mut branch: Vec<Node<Instructions>> = Vec::new();
                core::mem::swap(&mut analysing, &mut branch);
                proof {
                    lemma_branch_views_push(result@, branch);
                    assert(instruction_views(analysing@) =~= Seq::empty());
                }
                result.push(branch);
                cursor = cursor + 1;
            } else if matches!(token.kind, Tokens::EndOfInstruction) {
                cursor = cursor + 1;
            } else {
                match Instructions::parse(self, cursor, persistent, None) {
                    Err(error) => {
                        return Err(error);
                    },
                    Ok((instruction, end)) => {
                        proof {
                            lemma_instruction_views_push(analysing@, instruction);
                        }
                        analysing.push(instruction);
                        cursor = end;
                    },
                }
            }
        }
    }

    /// The branches between a delimiter and the token that closes it, from `at` on, with
    /// the position of that token.
    pub fn enclosed(
        &self,
        at: usize,
        stopper: Stopper,
        splitter: Splitter,
        persistent: BehaviorSet,
    ) -> (r: LangResult<(Vec<Vec<Node<Instructions>>>, usize)>)
        ensures
            match enclosed(self@.source(), at as int, stopper, splitter, persistent) {
                Ok((branches, close)) => r is Ok && branch_views(r->Ok_0.0@) == branches
                    && r->Ok_0.1 == close && at <= close < self@.tokens.len() && branches.len()
                    >= 1,
                Err(error) => r is Err && r->Err_0@ == error,
            },
        decreases self@.tokens, self@.tokens.len() - at, 31int,
    {
        proof {
            reveal(enclosed);
            reveal(branches_from);
        }
        match self.branches(at, stopper, splitter, persistent) {
            Err(error) => Err(error),
            Ok((branches, close)) => {
                if close < self.len() {
                    Ok((branches, close))
                } else {
                    Err(missing(self.tail(), stopper.text(), None))
                }
            },
        }
    }

    /// Parse the tokens from `at` on as a scope: `(branches)` or `@scope (branches)`.
    pub fn scope(&self, at: usize) -> (r: LangResult<ScopeParts>)
        ensures
            match scope_rule(self@.source(), at as int) {
                Ok(scope) => r is Ok && r->Ok_0@ == scope && at <= scope.open < scope.close
                    < self@.tokens.len() && scope.branches.len() >= 1,
                Err(error) => r is Err && r->Err_0@ == error,
            },
        decreases self@.tokens, self@.tokens.len() - at, 32int,
    {
        proof {
            reveal(scope_rule);
            reveal(enclosed);
        }
        let len = self.len();
        if at >= len {
            return Err(missing(self.tail(), "'(' or '@scope ('", None));
        }
        let token = self.token(at);
        match &token.kind {
            Tokens::ScopeTarget(_) => {
                let target = match ScopeTarget::parse(self, at) {
                    Err(error) => {
                        return Err(error);
                    },
                    Ok(target) => target,
                };
                match target.expect_definition() {
                    Err(error) => {
                        return Err(error);
                    },
                    Ok(_) => {},
                }
                if at + 1 >= len {
                    return Err(missing(self.tail(), "'('", None));
                }
                if !matches!(self.token(at + 1).kind, Tokens::Block(Toggleable::Openning)) {
                    return Err(missing(self.location(at), "'('", self.text(at + 1)));
                }
                match self.enclosed(
                    at + 2,
                    Stopper::Block,
                    Splitter::ArgSeparator,
                    BehaviorSet::new(),
                ) {
                    Err(error) => Err(error),
                    Ok((branches, close)) => Ok(
                        ScopeParts { target: Some(target), branches, open: at + 1, close },
                    ),
                }
            },
            Tokens::Block(Toggleable::Openning) => {
                match self.enclosed(
                    at + 1,
                    Stopper::Block,
                    Splitter::ArgSeparator,
                    BehaviorSet::new(),
                ) {
                    Err(error) => Err(error),
                    Ok((branches, close)) => Ok(
                        ScopeParts { target: None, branches, open: at, close },
                    ),
                }
            },
            _ => Err(missing(self.location(at), "'(' or '@scope ('", None)),
        }
    }

    /// The instructions of the tokens, from one end to the other.
    pub fn program(&self) -> (r: LangResult<Vec<Node<Instructions>>>)
        ensures
            match program(self@.source()) {
                Ok(instructions) => r is Ok && instruction_views(r->Ok_0@) == instructions,
                Err(error) => r is Err && r->Err_0@ == error,
            },
        decreases self@.tokens, self@.tokens.len(), 40int,
    {
        proof {
            reveal(program);
            reveal(branches_from);
        }
        match self.branches(0, Stopper::End, Splitter::Nothing, BehaviorSet::new()) {
            Err(error) => Err(error),
            Ok((mut branches, _)) => {
                let ghost all = branches@;
                let last = branches.pop().unwrap();
                assert(branch_views(all).last() == instruction_views(last@));
                Ok(last)
            },
        }
    }

    /// Execute the parser and return the vector of instructions
    pub fn parse(&mut self) -> (r: LangResult<&Vec<Node<Instructions>>>)
        ensures
            match program(old(self)@.source()) {
                Ok(instructions) => r is Ok && instruction_views(r->Ok_0@) == instructions
                    && final(self)@ == (ParserView { parsed: instructions, ..old(self)@ }),
                Err(error) => r is Err && r->Err_0@ == error && final(self)@ == old(self)@,
            },
    {
        match self.program() {
            Err(error) => Err(error),
            Ok(parsed) => {
                self.parsed = parsed;
                Ok(&self.parsed)
            },
        }
    }

    /// Clear the parsed instructions and rebuild it
    pub fn reparse(&mut self) -> (r: LangResult<&Vec<Node<Instructions>>>)
        ensures
            match program(old(self)@.source()) {
                Ok(instructions) => r is Ok && instruction_views(r->Ok_0@) == instructions
                    && final(self)@ == (ParserView {
                    parsed: instructions,
                    start: 0,
                    end: 0,
                    ..old(self)@
                }),
                Err(error) => r is Err && r->Err_0@ == error && final(self)@ == (ParserView {
                    parsed: Seq::empty(),
                    start: 0,
                    end: 0,
                    ..old(self)@
                }),
            },
    {
        self.parsed = Vec::new();
        assert(instruction_views(self.parsed@) =~= Seq::empty());
        self.analyser.set(0..0);
        self.parse()
    }

    /// A parser of the tokens of `lexer`, which is run for them.
    pub fn from(lexer: &mut Lexer) -> (r: LangResult<Parser>)
        requires
            old(lexer).wf(),
        ensures
            final(lexer).sound(),
            final(lexer)@.module == old(lexer)@.module,
            match crate::flylang::lexer::rules::lex_from(old(lexer)@.module, old(lexer)@.state) {
                Ok(tokens) => r is Ok && r->Ok_0@ == (ParserView {
                    module: old(lexer)@.module,
                    tokens,
                    start: 0,
                    end: 0,
                    parsed: Seq::empty(),
                    behaviors: BehaviorSet::none(),
                }),
                Err(error) => r is Err && r->Err_0@ == error,
            },
    {
        let stream = match lexer.lexify() {
            Err(error) => {
                return Err(error);
            },
            Ok(tokens) => crate::flylang::lexer::tokens::duplicate_tokens(tokens),
        };
        Ok(Self::new(lexer.module(), stream))
    }
}

impl Stopper {
    pub fn matches(&self, kind: &Tokens) -> (r: bool)
        ensures
            r == self.stops(kind@),
    {
        match self {
            Stopper::End => false,
            Stopper::Block => matches!(kind, Tokens::Block(Toggleable::Closing)),
            Stopper::Object => matches!(kind, Tokens::Object(Toggleable::Closing)),
        }
    }

    /// The delimiter that is waited for, as diagnostics show it.
    pub fn text(&self) -> (r: &'static str)
        ensures
            r@ == self.label(),
    {
        match self {
            Stopper::Object => "'}'",
            _ => "')'",
        }
    }
}

impl Splitter {
    pub fn matches(&self, kind: &Tokens) -> (r: bool)
        ensures
            r == self.splits(kind@),
    {
        match self {
            Splitter::Nothing => false,
            Splitter::ArgSeparator => matches!(kind, Tokens::ArgSeparator),
        }
    }
}

} // verus!
