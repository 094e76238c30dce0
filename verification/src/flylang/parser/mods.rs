use vstd::prelude::*;

verus! {

#[derive(Debug, Clone, Copy, PartialEq, Eq, Hash, Structural)]
pub enum ParserBehaviors {
    /// If the node should parse it-self as lazy.
    /// Bellow is a table of the "evaluated-as" expression in function of the `lazy` value
    ///
    /// expression | lazy=`true` | lazy=`false`
    /// ---|---|---
    /// `foo() + 1;` | `foo()` | `foo() + 1;`
    /// `(foo() + 1);` | `foo() + 1` | `foo() + 1;`
    Lazy,
    /// If included, the variable emplacement's expressions are not checked.
    /// If the value of the variant is `true`, it allows this rule recursivly (allowing syntax like `a(): b(): true`)
    AllowAnyVariableEmplacement(bool),
}

/// A set of parser behaviors. It is handed down the grammar by value: what a rule changes
/// in it holds for what that rule parses, and for nothing else.
#[derive(Debug, Clone, Copy, PartialEq, Eq, Structural)]
pub struct BehaviorSet {
    pub lazy: bool,
    pub any: bool,
    pub any_recursive: bool,
}

impl BehaviorSet {
    /// The set that holds nothing.
    pub open spec fn none() -> BehaviorSet {
        BehaviorSet { lazy: false, any: false, any_recursive: false }
    }

    pub open spec fn holds(self, behavior: ParserBehaviors) -> bool {
        match behavior {
            ParserBehaviors::Lazy => self.lazy,
            ParserBehaviors::AllowAnyVariableEmplacement(false) => self.any,
            ParserBehaviors::AllowAnyVariableEmplacement(true) => self.any_recursive,
        }
    }

    /// The set with `behavior` in it, or out of it.
    pub open spec fn with(self, behavior: ParserBehaviors, held: bool) -> BehaviorSet {
        match behavior {
            ParserBehaviors::Lazy => BehaviorSet { lazy: held, ..self },
            ParserBehaviors::AllowAnyVariableEmplacement(false) => BehaviorSet {
                any: held,
                ..self
            },
            ParserBehaviors::AllowAnyVariableEmplacement(true) => BehaviorSet {
                any_recursive: held,
                ..self
            },
        }
    }

    /// The behaviors under which the value of a variable is parsed: never lazily, and with
    /// any expression as an emplacement only where that is allowed recursively.
    pub open spec fn for_value(self) -> BehaviorSet {
        BehaviorSet { lazy: false, any: self.any && self.any_recursive, ..self }
    }

    pub fn new() -> (r: Self)
        ensures
            r == Self::none(),
    {
        BehaviorSet { lazy: false, any: false, any_recursive: false }
    }

    pub fn contains(&self, behavior: ParserBehaviors) -> (r: bool)
        ensures
            r == self.holds(behavior),
    {
        match behavior {
            ParserBehaviors::Lazy => self.lazy,
            ParserBehaviors::AllowAnyVariableEmplacement(false) => self.any,
            ParserBehaviors::AllowAnyVariableEmplacement(true) => self.any_recursive,
        }
    }

    pub fn insert(&mut self, behavior: ParserBehaviors)
        ensures
            *final(self) == old(self).with(behavior, true),
    {
        match behavior {
            ParserBehaviors::Lazy => {
                self.lazy = true;
            },
            ParserBehaviors::AllowAnyVariableEmplacement(false) => {
                self.any = true;
            },
            ParserBehaviors::AllowAnyVariableEmplacement(true) => {
                self.any_recursive = true;
            },
        }
    }

    pub fn remove(&mut self, behavior: ParserBehaviors)
        ensures
            *final(self) == old(self).with(behavior, false),
    {
        match behavior {
            ParserBehaviors::Lazy => {
                self.lazy = false;
            },
            ParserBehaviors::AllowAnyVariableEmplacement(false) => {
                self.any = false;
            },
            ParserBehaviors::AllowAnyVariableEmplacement(true) => {
                self.any_recursive = false;
            },
        }
    }
}

} // verus!
