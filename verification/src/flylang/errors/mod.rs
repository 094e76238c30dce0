use crate::flylang::lexer::errors::{
    InvalidScopeEnding, UnclosedScope, UnexpectedCharacter, UnknownCharacter,
};
use crate::flylang::lexer::tokens::{token_view, TokensView, TokenView};
use crate::flylang::module::slice::SliceView;
use crate::flylang::parser::ast::NodeView;
use crate::flylang::parser::ast::instructions::InstructionsView;
use crate::flylang::parser::errors::{
    EmptyScope, Expected, UnableToParse, UnexpectedNode, UnexpectedToken,
};
use crate::flylang::utils::scoper::Scope;
use vstd::prelude::*;

verus! {

/// How grave a diagnostic is.
#[derive(Debug, Clone, Copy, PartialEq, Eq, Structural)]
pub enum ErrorType {
    Warn,
    Stop,
    Hint,
}

impl ErrorType {
    /// The word that stands for the category when the diagnostic is shown.
    pub fn label(&self) -> (r: &'static str)
        ensures
            r@ == (match *self {
                ErrorType::Hint => "Hint"@,
                ErrorType::Stop => "Error"@,
                ErrorType::Warn => "Warning"@,
            }),
    {
        match self {
            ErrorType::Hint => "Hint",
            ErrorType::Stop => "Error",
            ErrorType::Warn => "Warning",
        }
    }
}

/// A diagnostic: its category and its numeric code.
pub trait RaisableErr {
    spec fn kind_of(&self) -> ErrorType;

    spec fn code_of(&self) -> i32;

    fn _kind(&self) -> (r: ErrorType)
        ensures
            r == self.kind_of(),
    ;

    fn _code(&self) -> (r: i32)
        ensures
            r == self.code_of(),
    ;
}

/// Whether the diagnostic ends the run: only those of category `Stop` do; the others are
/// shown and the work goes on.
pub fn must_stop<E: RaisableErr>(error: &E) -> (r: bool)
    ensures
        r == (error.kind_of() == ErrorType::Stop),
{
    error._kind() == ErrorType::Stop
}

/// Every diagnostic that lexing and parsing raise.
#[derive(Debug)]
pub enum LangError {
    UnknownCharacter(UnknownCharacter),
    UnexpectedCharacter(UnexpectedCharacter),
    InvalidScopeEnding(InvalidScopeEnding),
    UnclosedScope(UnclosedScope),
    Expected(Expected),
    UnexpectedNode(UnexpectedNode),
    UnexpectedToken(UnexpectedToken),
    UnableToParse(UnableToParse),
    EmptyScope(EmptyScope),
}

/// What a diagnostic is, mathematically.
pub enum LangErrorView {
    UnknownCharacter(SliceView),
    UnexpectedCharacter(SliceView, Option<Seq<char>>),
    InvalidScopeEnding(SliceView, Scope<SliceView>),
    UnclosedScope(Scope<SliceView>),
    Expected { after: SliceView, expected: Option<Seq<char>>, but_found: Option<Seq<char>> },
    UnexpectedNode(NodeView<InstructionsView>),
    UnexpectedToken(TokenView<TokensView>),
    UnableToParse(SliceView, Seq<char>),
    EmptyScope(SliceView),
}

impl LangError {
    pub open spec fn view(self) -> LangErrorView {
        match self {
            LangError::UnknownCharacter(e) => LangErrorView::UnknownCharacter(e.0@),
            LangError::UnexpectedCharacter(e) => LangErrorView::UnexpectedCharacter(
                e.0@,
                match e.1 {
                    Some(expected) => Some(expected@),
                    None => None,
                },
            ),
            LangError::InvalidScopeEnding(e) => LangErrorView::InvalidScopeEnding(
                e.0@,
                e.1.with(e.1.spec_data()@),
            ),
            LangError::UnclosedScope(e) => LangErrorView::UnclosedScope(
                e.0.with(e.0.spec_data()@),
            ),
            LangError::Expected(e) => LangErrorView::Expected {
                after: e.after@,
                expected: match e.expected {
                    Some(text) => Some(text@),
                    None => None,
                },
                but_found: match e.but_found {
                    Some(text) => Some(text@),
                    None => None,
                },
            },
            LangError::UnexpectedNode(e) => LangErrorView::UnexpectedNode(e.0@),
            LangError::UnexpectedToken(e) => LangErrorView::UnexpectedToken(token_view(e.0)),
            LangError::UnableToParse(e) => LangErrorView::UnableToParse(e.0@, e.1@),
            LangError::EmptyScope(e) => LangErrorView::EmptyScope(e.0@),
        }
    }
}

impl RaisableErr for LangError {
    open spec fn kind_of(&self) -> ErrorType {
        match self {
            LangError::UnknownCharacter(e) => e.kind_of(),
            LangError::UnexpectedCharacter(e) => e.kind_of(),
            LangError::InvalidScopeEnding(e) => e.kind_of(),
            LangError::UnclosedScope(e) => e.kind_of(),
            LangError::Expected(e) => e.kind_of(),
            LangError::UnexpectedNode(e) => e.kind_of(),
            LangError::UnexpectedToken(e) => e.kind_of(),
            LangError::UnableToParse(e) => e.kind_of(),
            LangError::EmptyScope(e) => e.kind_of(),
        }
    }

    open spec fn code_of(&self) -> i32 {
        match self {
            LangError::UnknownCharacter(e) => e.code_of(),
            LangError::UnexpectedCharacter(e) => e.code_of(),
            LangError::InvalidScopeEnding(e) => e.code_of(),
            LangError::UnclosedScope(e) => e.code_of(),
            LangError::Expected(e) => e.code_of(),
            LangError::UnexpectedNode(e) => e.code_of(),
            LangError::UnexpectedToken(e) => e.code_of(),
            LangError::UnableToParse(e) => e.code_of(),
            LangError::EmptyScope(e) => e.code_of(),
        }
    }

    fn _kind(&self) -> (r: ErrorType) {
        match self {
            LangError::UnknownCharacter(e) => e._kind(),
            LangError::UnexpectedCharacter(e) => e._kind(),
            LangError::InvalidScopeEnding(e) => e._kind(),
            LangError::UnclosedScope(e) => e._kind(),
            LangError::Expected(e) => e._kind(),
            LangError::UnexpectedNode(e) => e._kind(),
            LangError::UnexpectedToken(e) => e._kind(),
            LangError::UnableToParse(e) => e._kind(),
            LangError::EmptyScope(e) => e._kind(),
        }
    }

    fn _code(&self) -> (r: i32) {
        match self {
            LangError::UnknownCharacter(e) => e._code(),
            LangError::UnexpectedCharacter(e) => e._code(),
            LangError::InvalidScopeEnding(e) => e._code(),
            LangError::UnclosedScope(e) => e._code(),
            LangError::Expected(e) => e._code(),
            LangError::UnexpectedNode(e) => e._code(),
            LangError::UnexpectedToken(e) => e._code(),
            LangError::UnableToParse(e) => e._code(),
            LangError::EmptyScope(e) => e._code(),
        }
    }
}

pub type LangResult<R> = Result<R, LangError>;

} // verus!
