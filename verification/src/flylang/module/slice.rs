use crate::flylang::module::{LangModule, ModuleView, share};
use crate::flylang::module::char::{CharView, LangModuleChar};
use std::ops::Range;
use std::rc::Rc;
use vstd::prelude::*;
use vstd::string::StrSliceExecFns;

verus! {

/// What a slice is, mathematically: a module and a half-open range of positions in it.
pub struct SliceView {
    pub module: ModuleView,
    pub start: int,
    pub end: int,
}

impl SliceView {
    /// The range lies inside the module.
    pub open spec fn wf(self) -> bool {
        0 <= self.start <= self.end <= self.module.code.len()
    }

    /// The characters that the slice covers.
    pub open spec fn code(self) -> Seq<char> {
        self.module.code.subrange(self.start, self.end)
    }

    pub open spec fn len(self) -> int {
        self.end - self.start
    }

    /// The smallest slice that covers both.
    pub open spec fn union(self, other: SliceView) -> SliceView {
        SliceView {
            module: self.module,
            start: if self.start <= other.start {
                self.start
            } else {
                other.start
            },
            end: if self.end >= other.end {
                self.end
            } else {
                other.end
            },
        }
    }

    /// The smallest slice of the module of `self` that covers `self` and, as far as that
    /// module reaches, `other`. Of two slices of one module, it is their union.
    pub open spec fn join(self, other: SliceView) -> SliceView {
        SliceView {
            module: self.module,
            start: if self.start <= other.start {
                self.start
            } else {
                other.start
            },
            end: if self.end >= other.end {
                self.end
            } else if other.end <= self.module.code.len() {
                other.end
            } else {
                self.module.code.len() as int
            },
        }
    }

    /// Whether `other` is a slice of the same module that lies inside `self`.
    pub open spec fn holds(self, other: SliceView) -> bool {
        self.module == other.module && self.start <= other.start <= other.end <= self.end
    }

    /// Every position of `other` is one of `self`.
    pub open spec fn contains(self, other: SliceView) -> bool {
        self.module == other.module && self.start <= other.start && other.end <= self.end
    }
}

/// The slice of `module` from `start` to `end`.
pub open spec fn span(module: ModuleView, start: int, end: int) -> SliceView {
    SliceView { module, start, end }
}

/// A module's slice.
/// The range must follow those rules :
///     - start <= end
///     - end <= length of module
///
/// Additional informations :
///     - if start = end, the `code` method returns an empty &str
///     - if start = end = length of module, the "cursor" is at the end of the module's code
#[derive(Debug)]
pub struct LangModuleSlice {
    module: Rc<LangModule>,
    start: usize,
    end: usize,
}

impl LangModuleSlice {
    #[verifier::type_invariant]
    spec fn inv(self) -> bool {
        self.start <= self.end <= self.module@.code.len()
    }

    pub closed spec fn view(&self) -> SliceView {
        SliceView {
            module: self.module@,
            start: self.start as int,
            end: self.end as int,
        }
    }

    pub fn new(module: &Rc<LangModule>) -> (r: Self)
        ensures
            r@ == span(module@, 0, 0),
    {
        Self { module: share(module), start: 0, end: 0 }
    }

    /// The slice of `module` that covers `range`.
    pub fn new_with(module: &Rc<LangModule>, range: Range<usize>) -> (r: Self)
        requires
            range.start <= range.end <= module@.code.len(),
        ensures
            r@ == span(module@, range.start as int, range.end as int),
    {
        Self { module: share(module), start: range.start, end: range.end }
    }

    /// Override the current range.
    pub fn set(&mut self, range: Range<usize>)
        requires
            range.start <= range.end <= old(self)@.module.code.len(),
        ensures
            final(self)@ == span(old(self)@.module, range.start as int, range.end as int),
    {
        let module = share(&self.module);
        *self = Self { module, start: range.start, end: range.end };
    }

    /// Get the current range of the slice.
    /// To override the range, use the `set` method.
    pub fn range(&self) -> (r: Range<usize>)
        ensures
            r.start == self@.start,
            r.end == self@.end,
            self@.wf(),
    {
        proof {
            use_type_invariant(self);
        }
        self.start..self.end
    }

    /// Get the slice's module
    pub fn module(&self) -> (r: &Rc<LangModule>)
        ensures
            r@ == self@.module,
    {
        &self.module
    }

    /// Get the content of the slice
    pub fn code(&self) -> (r: &str)
        ensures
            r@ == self@.code(),
    {
        proof {
            use_type_invariant(self);
        }
        self.module.code().substring_char(self.start, self.end)
    }

    /// An independent copy of the slice, on the same module.
    pub fn duplicate(&self) -> (r: Self)
        ensures
            r@ == self@,
    {
        proof {
            use_type_invariant(self);
        }
        Self { module: share(&self.module), start: self.start, end: self.end }
    }

    /// Get the `LangModuleChar` object of the first character, or None if the slice is empty
    pub fn start(&self) -> (r: Option<LangModuleChar>)
        ensures
            r is Some == (self@.start < self@.end),
            r matches Some(c) ==> c@.module == self@.module && c@.index == self@.start,
    {
        proof {
            use_type_invariant(self);
        }
        if self.start < self.end {
            let mut modchar = LangModuleChar::new(&self.module);
            modchar.set(self.start);
            Some(modchar)
        } else {
            None
        }
    }

    /// Get the `LangModuleChar` object of the last character, or None if the slice is empty
    pub fn end(&self) -> (r: Option<LangModuleChar>)
        ensures
            r is Some == (self@.start < self@.end),
            r matches Some(c) ==> c@.module == self@.module && c@.index == self@.end - 1,
    {
        proof {
            use_type_invariant(self);
        }
        if self.start < self.end {
            let mut modchar = LangModuleChar::new(&self.module);
            modchar.set(self.end - 1);
            Some(modchar)
        } else {
            None
        }
    }

    /// The slice of the one character `value`.
    pub fn from_char(value: &LangModuleChar) -> (r: Self)
        requires
            value@.index < value@.module.code.len(),
        ensures
            r@ == span(value@.module, value@.index, value@.index + 1),
    {
        let at = value.index();
        let limit = value.module().len();
        assert(at < limit);
        Self::new_with(value.module(), at..(at + 1))
    }

    /// The smallest slice that covers both `self` and `other`, which lie in one module.
    pub fn union(&self, other: &LangModuleSlice) -> (r: Self)
        requires
            self@.module == other@.module,
        ensures
            r@ == self@.union(other@),
    {
        proof {
            use_type_invariant(self);
            use_type_invariant(other);
        }
        let start = if self.start <= other.start {
            self.start
        } else {
            other.start
        };
        let end = if self.end >= other.end {
            self.end
        } else {
            other.end
        };
        Self { module: share(&self.module), start, end }
    }
}

impl LangModuleSlice {
    /// The smallest slice of the module of `self` that covers `self` and, as far as that
    /// module reaches, `other`.
    pub fn join(&self, other: &LangModuleSlice) -> (r: Self)
        ensures
            r@ == self@.join(other@),
    {
        proof {
            use_type_invariant(self);
            use_type_invariant(other);
        }
        let limit = self.module.len();
        let start = if self.start <= other.start {
            self.start
        } else {
            other.start
        };
        let end = if self.end >= other.end {
            self.end
        } else if other.end <= limit {
            other.end
        } else {
            limit
        };
        Self { module: share(&self.module), start, end }
    }
}

/// The smallest slice that covers the slices of `slices`, which lie in one module and of
/// which there is one at least.
pub open spec fn covering(slices: Seq<SliceView>) -> SliceView
    decreases slices.len(),
{
    if slices.len() <= 1 {
        slices[0]
    } else {
        covering(slices.drop_last()).union(slices.last())
    }
}

/// The slice of one character that `modchar` is.
pub open spec fn one(modchar: CharView) -> SliceView {
    span(modchar.module, modchar.index, modchar.index + 1)
}

impl LangModuleSlice {
    /// The smallest slice that covers the slices of `value`, which lie in one module and of
    /// which there is one at least.
    pub fn from_slices(value: &Vec<LangModuleSlice>) -> (r: Self)
        requires
            value.len() > 0,
            forall|i: int| 0 <= i < value.len() ==> (#[trigger] value[i])@.module == value[0]@.module,
        ensures
            r@ == covering(value@.map_values(|slice: LangModuleSlice| slice@)),
    {
        let ghost views = value@.map_values(|slice: LangModuleSlice| slice@);
        let mut found = value[0].duplicate();
        let mut at: usize = 1;
        assert(views.subrange(0, 1) =~= seq![views[0]]);
        while at < value.len()
            invariant
                1 <= at <= value.len(),
                views == value@.map_values(|slice: LangModuleSlice| slice@),
                forall|i: int|
                    0 <= i < value.len() ==> (#[trigger] value[i])@.module == value[0]@.module,
                found@ == covering(views.subrange(0, at as int)),
                found@.module == value[0]@.module,
            decreases value.len() - at,
        {
            assert(views.subrange(0, at + 1).drop_last() =~= views.subrange(0, at as int));
            found = found.union(&value[at]);
            at = at + 1;
        }
        assert(views.subrange(0, at as int) =~= views);
        found
    }

    /// The smallest slice that covers the characters of `value`, which lie in one module and
    /// of which there is one at least.
    pub fn from_chars(value: &Vec<LangModuleChar>) -> (r: Self)
        requires
            value.len() > 0,
            forall|i: int|
                0 <= i < value.len() ==> (#[trigger] value[i])@.module == value[0]@.module
                    && value[i]@.index < value[i]@.module.code.len(),
        ensures
            r@ == covering(value@.map_values(|modchar: LangModuleChar| one(modchar@))),
    {
        let ghost views = value@.map_values(|modchar: LangModuleChar| one(modchar@));
        let mut found = Self::from_char(&value[0]);
        let mut at: usize = 1;
        assert(views.subrange(0, 1) =~= seq![views[0]]);
        while at < value.len()
            invariant
                1 <= at <= value.len(),
                views == value@.map_values(|modchar: LangModuleChar| one(modchar@)),
                forall|i: int|
                    0 <= i < value.len() ==> (#[trigger] value[i])@.module == value[0]@.module
                        && value[i]@.index < value[i]@.module.code.len(),
                found@ == covering(views.subrange(0, at as int)),
                found@.module == value[0]@.module,
            decreases value.len() - at,
        {
            assert(views.subrange(0, at + 1).drop_last() =~= views.subrange(0, at as int));
            found = found.union(&Self::from_char(&value[at]));
            at = at + 1;
        }
        assert(views.subrange(0, at as int) =~= views);
        found
    }
}

impl Clone for LangModuleSlice {
    fn clone(&self) -> (r: Self)
        ensures
            r@ == self@,
    {
        self.duplicate()
    }
}

} // verus!
