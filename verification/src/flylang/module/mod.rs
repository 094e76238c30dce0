use crate::flylang::module::char::LangModuleChar;
use crate::flylang::module::slice::LangModuleSlice;
use std::rc::Rc;
use vstd::prelude::*;

pub mod char;
pub mod slice;

verus! {

/// What a module is, mathematically: where it comes from and the characters it holds.
pub struct ModuleView {
    pub path: Seq<char>,
    pub code: Seq<char>,
}

/// An immutable source file: its path (or label) and its contents.
/// Every position in a module counts characters, not bytes.
#[derive(Debug)]
pub struct LangModule {
    path: String,
    code: String,
    chars: Vec<char>,
}

/// One more handle on the same module, by `Rc::clone`; the module itself is not copied.
/// That the new handle points to the same module is what the documentation of `Rc::clone`
/// says: it is not proved here.
#[verifier::external_body]
pub(crate) fn share(module: &Rc<LangModule>) -> (r: Rc<LangModule>)
    ensures
        r == *module,
{
    Rc::clone(module)
}

/// The characters of a string, in order.
pub fn characters(text: &str) -> (r: Vec<char>)
    ensures
        r@ == text@,
{
    let mut out: Vec<char> = Vec::new();
    for c in iter: text.chars()
        invariant
            iter.seq() == text@,
            out@ == iter.seq().take(iter.index()),
    {
        assert(iter.seq().take(iter.index() + 1) =~= iter.seq().take(iter.index()).push(c));
        out.push(c);
    }
    assert(out@ =~= text@);
    out
}

impl LangModule {
    #[verifier::type_invariant]
    spec fn inv(self) -> bool {
        self.chars@ == self.code@
    }

    pub closed spec fn view(&self) -> ModuleView {
        ModuleView { path: self.path@, code: self.chars@ }
    }

    /// A module made of a script held in memory, under a label that stands for its path.
    pub fn new_from_raw(code: String, label: &str) -> (r: Self)
        ensures
            r@ == (ModuleView { path: label@, code: code@ }),
    {
        let chars = characters(code.as_str());
        Self { path: label.to_owned(), code, chars }
    }

    pub fn into_rc(self) -> (r: Rc<Self>)
        ensures
            r@ == self@,
    {
        Rc::new(self)
    }

    /// Get the content of the module
    pub fn code(&self) -> (r: &str)
        ensures
            r@ == self@.code,
    {
        proof {
            use_type_invariant(self);
        }
        self.code.as_str()
    }

    /// Get the path of the module. To avoid override, the returned path is cloned.
    pub fn path(&self) -> (r: String)
        ensures
            r@ == self@.path,
    {
        self.path.clone()
    }

    /// The number of characters in the module.
    pub fn len(&self) -> (r: usize)
        ensures
            r == self@.code.len(),
    {
        self.chars.len()
    }

    /// The character at `index`.
    pub fn char_at(&self, index: usize) -> (r: char)
        requires
            index < self@.code.len(),
        ensures
            r == self@.code[index as int],
    {
        self.chars[index]
    }

    /// The characters of the module, each with its position.
    pub fn chars(&self) -> (r: ModIter)
        ensures
            r@ == (ModIterView { module: self@, cursor: 0, max: self@.code.len() as int }),
    {
        proof {
            use_type_invariant(self);
        }
        ModIter::new(&Rc::new(self.clone()))
    }
}

impl Clone for LangModule {
    fn clone(&self) -> (r: Self)
        ensures
            r@ == self@,
    {
        proof {
            use_type_invariant(self);
        }
        Self::new_from_raw(self.code.clone(), self.path.as_str())
    }
}

pub struct ModIterView {
    pub module: ModuleView,
    pub cursor: int,
    pub max: int,
}

/// Walks the characters of a module, or of a slice of it, from left to right.
#[derive(Debug)]
pub struct ModIter {
    module: Rc<LangModule>,
    cursor: usize,
    max: usize,
}

impl ModIter {
    #[verifier::type_invariant]
    spec fn inv(self) -> bool {
        self.max <= self.module@.code.len()
    }

    pub closed spec fn view(&self) -> ModIterView {
        ModIterView { module: self.module@, cursor: self.cursor as int, max: self.max as int }
    }

    pub fn new(module: &Rc<LangModule>) -> (r: Self)
        ensures
            r@ == (ModIterView { module: module@, cursor: 0, max: module@.code.len() as int }),
    {
        Self { module: share(module), cursor: 0, max: module.len() }
    }

    /// Walks the characters that a slice covers.
    pub fn from_slice(value: &LangModuleSlice) -> (r: Self)
        ensures
            r@ == (ModIterView {
                module: value@.module,
                cursor: value@.start,
                max: value@.end,
            }),
    {
        let range = value.range();
        Self { module: share(value.module()), cursor: range.start, max: range.end }
    }

    /// The character under the cursor, if any is left, and moves the cursor past it.
    pub fn next(&mut self) -> (r: Option<LangModuleChar>)
        ensures
            final(self)@.module == old(self)@.module,
            final(self)@.max == old(self)@.max,
            old(self)@.cursor < old(self)@.max ==> final(self)@.cursor == old(self)@.cursor + 1
                && r is Some && r->0@.module == old(self)@.module && r->0@.index == old(
                self,
            )@.cursor,
            old(self)@.cursor >= old(self)@.max ==> final(self)@.cursor == old(self)@.cursor
                && r is None,
    {
        proof {
            use_type_invariant(&*self);
        }
        if self.cursor < self.max {
            let mut modchar = LangModuleChar::new(&self.module);
            modchar.set(self.cursor);
            self.cursor = self.cursor + 1;
            Some(modchar)
        } else {
            None
        }
    }
}

} // verus!
