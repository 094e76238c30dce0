use crate::flylang::errors::{ErrorType, RaisableErr};
use crate::flylang::lexer::tokens::{Token, Tokens};
use crate::flylang::module::slice::LangModuleSlice;
use crate::flylang::parser::ast::Node;
use crate::flylang::parser::ast::instructions::Instructions;
use vstd::prelude::*;

verus! {

/// A node that cannot stand where it does.
#[derive(Debug)]
pub struct UnexpectedNode(pub Node<Instructions>);

impl RaisableErr for UnexpectedNode {
    open spec fn kind_of(&self) -> ErrorType {
        ErrorType::Stop
    }

    open spec fn code_of(&self) -> i32 {
        1
    }

    fn _kind(&self) -> (r: ErrorType) {
        ErrorType::Stop
    }

    fn _code(&self) -> (r: i32) {
        1
    }
}

/// A token that cannot stand where it does.
#[derive(Debug)]
pub struct UnexpectedToken(pub Token<Tokens>);

impl RaisableErr for UnexpectedToken {
    open spec fn kind_of(&self) -> ErrorType {
        ErrorType::Stop
    }

    open spec fn code_of(&self) -> i32 {
        2
    }

    fn _kind(&self) -> (r: ErrorType) {
        ErrorType::Stop
    }

    fn _code(&self) -> (r: i32) {
        2
    }
}

/// Something is missing after a place in the module: what was expected there, if it can be
/// said, and what stands there, if anything does.
#[derive(Debug)]
pub struct Expected {
    pub after: LangModuleSlice,
    pub expected: Option<String>,
    pub but_found: Option<String>,
}

impl RaisableErr for Expected {
    open spec fn kind_of(&self) -> ErrorType {
        ErrorType::Stop
    }

    open spec fn code_of(&self) -> i32 {
        3
    }

    fn _kind(&self) -> (r: ErrorType) {
        ErrorType::Stop
    }

    fn _code(&self) -> (r: i32) {
        3
    }
}

/// A scope that holds nothing.
#[derive(Debug)]
pub struct EmptyScope(pub LangModuleSlice);

impl RaisableErr for EmptyScope {
    open spec fn kind_of(&self) -> ErrorType {
        ErrorType::Warn
    }

    open spec fn code_of(&self) -> i32 {
        1
    }

    fn _kind(&self) -> (r: ErrorType) {
        ErrorType::Warn
    }

    fn _code(&self) -> (r: i32) {
        1
    }
}

/// A part of the module that makes no sense, and why.
#[derive(Debug)]
pub struct UnableToParse(pub LangModuleSlice, pub String);

impl RaisableErr for UnableToParse {
    open spec fn kind_of(&self) -> ErrorType {
        ErrorType::Stop
    }

    open spec fn code_of(&self) -> i32 {
        4
    }

    fn _kind(&self) -> (r: ErrorType) {
        ErrorType::Stop
    }

    fn _code(&self) -> (r: i32) {
        4
    }
}

} // verus!
