use crate::flylang::module::{LangModule, ModuleView, share};
use std::rc::Rc;
use vstd::prelude::*;

verus! {

/// What a module character is, mathematically: a module and a position in it.
pub struct CharView {
    pub module: ModuleView,
    pub index: int,
}

/// The number of line breaks before position `index` of `code`: the line of that position,
/// counted from 0.
pub open spec fn line_of(code: Seq<char>, index: int) -> nat
    decreases index,
{
    if index <= 0 {
        0
    } else {
        line_of(code, index - 1) + if code[index - 1] == '\n' {
            1nat
        } else {
            0nat
        }
    }
}

/// The number of characters between position `index` of `code` and the start of its line: the
/// column of that position, counted from 0.
pub open spec fn column_of(code: Seq<char>, index: int) -> nat
    decreases index,
{
    if index <= 0 || code[index - 1] == '\n' {
        0
    } else {
        column_of(code, index - 1) + 1
    }
}

/// One character of the module
/// This is the same than a `LangModuleSlice`, but it has only one character.
/// It's like a `LangModuleSlice` with a range : index..index+1
#[derive(Debug, Clone)]
pub struct LangModuleChar {
    module: Rc<LangModule>,
    index: usize,
}

impl LangModuleChar {
    pub closed spec fn view(&self) -> CharView {
        CharView { module: self.module@, index: self.index as int }
    }

    pub fn new(module: &Rc<LangModule>) -> (r: Self)
        ensures
            r@ == (CharView { module: module@, index: 0 }),
    {
        Self { module: share(module), index: 0 }
    }

    pub fn set(&mut self, index: usize)
        requires
            index < old(self)@.module.code.len(),
        ensures
            final(self)@ == (CharView { module: old(self)@.module, index: index as int }),
    {
        self.index = index;
    }

    /// Get the char's index in the module's code
    pub fn index(&self) -> (r: usize)
        ensures
            r == self@.index,
    {
        self.index
    }

    /// Get the slice's module
    pub fn module(&self) -> (r: &Rc<LangModule>)
        ensures
            r@ == self@.module,
    {
        &self.module
    }

    pub fn code(&self) -> (r: char)
        requires
            self@.index < self@.module.code.len(),
        ensures
            r == self@.module.code[self@.index],
    {
        self.module.char_at(self.index)
    }

    /// Get the line index (starting at 0) of the character on its module
    pub fn line(&self) -> (r: usize)
        requires
            self@.index < self@.module.code.len(),
        ensures
            r == line_of(self@.module.code, self@.index),
    {
        let mut at: usize = 0;
        let mut lines: usize = 0;
        while at < self.index
            invariant
                at <= self.index < self.module@.code.len(),
                lines == line_of(self.module@.code, at as int),
                lines <= at,
            decreases self.index - at,
        {
            if self.module.char_at(at) == '\n' {
                lines = lines + 1;
            }
            at = at + 1;
        }
        lines
    }

    /// Get the location of the character on the character's line
    pub fn line_index(&self) -> (r: usize)
        requires
            self@.index < self@.module.code.len(),
        ensures
            r == column_of(self@.module.code, self@.index),
    {
        let mut shift: usize = 0;
        while shift < self.index && self.module.char_at(self.index - shift - 1) != '\n'
            invariant
                shift <= self.index < self.module@.code.len(),
                column_of(self.module@.code, self.index as int) == column_of(
                    self.module@.code,
                    self.index - shift,
                ) + shift,
            decreases self.index - shift,
        {
            shift = shift + 1;
        }
        shift
    }
}

} // verus!
