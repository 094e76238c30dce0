use crate::flylang::errors::{LangErrorView, LangResult};
use crate::flylang::lexer::{Lexer, LexerView};
use crate::flylang::lexer::layout::lemma_tokens_make_up_the_source;
use crate::flylang::lexer::rules::{lex, LexState};
use crate::flylang::module::{LangModule, ModuleView};
use crate::flylang::parser::{Parser, ParserView};
use crate::flylang::parser::grammar::{Branch, program, Source};
use crate::flylang::parser::mods::BehaviorSet;
use crate::flylang::parser::tidy::lemma_placed_tokens_make_tidy_trees;
use std::rc::Rc;
use vstd::prelude::*;

pub mod errors;
pub mod lexer;
pub mod module;
pub mod parser;
pub mod utils;

verus! {

/// The label of a module that is given none.
pub open spec fn label_of(label: Option<&str>) -> Seq<char> {
    match label {
        Some(label) => label@,
        None => "anonymous"@,
    }
}

/// The tree of a module: the instructions that parsing gives of the tokens that lexing
/// gives of it. It depends on the module alone: the same module always has the same tree.
pub open spec fn tree_of(module: ModuleView) -> Result<Branch, LangErrorView> {
    match lex(module) {
        Err(error) => Err(error),
        Ok(tokens) => program(Source { module, tokens }),
    }
}

/// Lexing then parsing is deterministic: modules that are the same have the same tree.
pub proof fn lemma_same_module_same_tree(first: ModuleView, second: ModuleView)
    requires
        first.path == second.path,
        first.code == second.code,
    ensures
        tree_of(first) == tree_of(second),
{
}

/// Every node of the tree of a module is a slice of the module that holds the slice of
/// each node below it, and each token that it is made of. No node turns over the sign of
/// a number: the sign is part of the number.
pub proof fn lemma_trees_are_tidy(module: ModuleView)
    ensures
        tree_of(module) matches Ok(instructions) ==> forall|i: int|
            0 <= i < instructions.len() ==> (#[trigger] instructions[i]).location.module
                == module && 0 <= instructions[i].location.start <= instructions[i].location.end
                <= module.code.len() && instructions[i].kind.tidy(instructions[i].location),
{
    lemma_tokens_make_up_the_source(module);
    match lex(module) {
        Ok(tokens) => {
            let source = Source { module, tokens };
            lemma_placed_tokens_make_tidy_trees(source);
        },
        Err(_) => {},
    }
}

pub struct FlyLang();

impl FlyLang {
    pub fn anonymous_module(script: &str, label: Option<&str>) -> (r: LangModule)
        ensures
            r@ == (ModuleView { path: label_of(label), code: script@ }),
    {
        LangModule::new_from_raw(
            script.to_owned(),
            match label {
                Some(label) => label,
                None => "anonymous",
            },
        )
    }

    pub fn anonymous_lexer(script: &str, label: Option<&str>) -> (r: Lexer)
        ensures
            r.wf(),
            r@ == LexerView::resting(
                ModuleView { path: label_of(label), code: script@ },
                LexState { at: 0, scope: Seq::empty(), tokens: Seq::empty() },
            ),
    {
        Lexer::new(&Rc::new(Self::anonymous_module(script, label)))
    }

    /// A parser of the tokens of the script, unless lexing it fails.
    pub fn anonymous_parser(script: &str, label: Option<&str>) -> (r: LangResult<Parser>)
        ensures
            match lex(ModuleView { path: label_of(label), code: script@ }) {
                Ok(tokens) => r is Ok && r->Ok_0@ == (ParserView {
                    module: ModuleView { path: label_of(label), code: script@ },
                    tokens,
                    start: 0,
                    end: 0,
                    parsed: Seq::empty(),
                    behaviors: BehaviorSet::none(),
                }),
                Err(error) => r is Err && r->Err_0@ == error,
            },
    {
        let mut lexer = Self::anonymous_lexer(script, label);
        Parser::from(&mut lexer)
    }
}

} // verus!
