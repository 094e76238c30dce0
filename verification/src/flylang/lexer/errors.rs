use crate::flylang::errors::{ErrorType, RaisableErr};
use crate::flylang::module::slice::LangModuleSlice;
use crate::flylang::utils::scoper::Scope;
use vstd::prelude::*;

verus! {

/// A character that starts no token.
#[derive(Debug)]
pub struct UnknownCharacter(pub LangModuleSlice);

impl RaisableErr for UnknownCharacter {
    open spec fn kind_of(&self) -> ErrorType {
        ErrorType::Stop
    }

    open spec fn code_of(&self) -> i32 {
        2
    }

    fn _kind(&self) -> (r: ErrorType) {
        ErrorType::Stop
    }

    fn _code(&self) -> (r: i32) {
        2
    }
}

/// A character that cannot stand where it does, with the class that was expected there, if
/// one was.
#[derive(Debug)]
pub struct UnexpectedCharacter(pub LangModuleSlice, pub Option<&'static str>);

impl RaisableErr for UnexpectedCharacter {
    open spec fn kind_of(&self) -> ErrorType {
        ErrorType::Stop
    }

    open spec fn code_of(&self) -> i32 {
        3
    }

    fn _kind(&self) -> (r: ErrorType) {
        ErrorType::Stop
    }

    fn _code(&self) -> (r: i32) {
        3
    }
}

/// A closing delimiter that does not match the innermost open scope.
#[derive(Debug)]
pub struct InvalidScopeEnding(pub LangModuleSlice, pub Scope<LangModuleSlice>);

impl RaisableErr for InvalidScopeEnding {
    open spec fn kind_of(&self) -> ErrorType {
        ErrorType::Stop
    }

    open spec fn code_of(&self) -> i32 {
        3
    }

    fn _kind(&self) -> (r: ErrorType) {
        ErrorType::Stop
    }

    fn _code(&self) -> (r: i32) {
        3
    }
}

/// A scope that is still open where the module ends.
#[derive(Debug)]
pub struct UnclosedScope(pub Scope<LangModuleSlice>);

impl RaisableErr for UnclosedScope {
    open spec fn kind_of(&self) -> ErrorType {
        ErrorType::Stop
    }

    open spec fn code_of(&self) -> i32 {
        3
    }

    fn _kind(&self) -> (r: ErrorType) {
        ErrorType::Stop
    }

    fn _code(&self) -> (r: i32) {
        3
    }
}

} // verus!
