use vstd::prelude::*;

verus! {

/// A balanced-delimiter marker, attached to whatever describes where it was opened.
#[derive(Debug, Clone)]
pub enum Scope<Data> {
    Block(Data),
    String(Data),
    Object(Data),
    Module(Data),
}

impl<T> Scope<T> {
    /// The payload of the marker.
    pub open spec fn spec_data(self) -> T {
        match self {
            Scope::Block(v) => v,
            Scope::String(v) => v,
            Scope::Object(v) => v,
            Scope::Module(v) => v,
        }
    }

    /// The same marker carrying `data` instead of its payload.
    pub open spec fn with<U>(self, data: U) -> Scope<U> {
        match self {
            Scope::Block(_) => Scope::Block(data),
            Scope::String(_) => Scope::String(data),
            Scope::Object(_) => Scope::Object(data),
            Scope::Module(_) => Scope::Module(data),
        }
    }

    /// Whether two markers are of the same variant, whatever they carry.
    pub open spec fn same_kind<U>(self, other: Scope<U>) -> bool {
        self.with(()) == other.with(())
    }

    pub fn without_data(&self) -> (r: Scope<()>)
        ensures
            r == self.with(()),
    {
        match self {
            Scope::Block(_) => Scope::Block(()),
            Scope::Module(_) => Scope::Module(()),
            Scope::Object(_) => Scope::Object(()),
            Scope::String(_) => Scope::String(()),
        }
    }

    pub fn data(&self) -> (r: &T)
        ensures
            *r == self.spec_data(),
    {
        match self {
            Scope::Block(v) => v,
            Scope::Module(v) => v,
            Scope::Object(v) => v,
            Scope::String(v) => v,
        }
    }

    /// Returns true if the two scopes are of the same variant.
    pub fn is(&self, scope: &Scope<()>) -> (r: bool)
        ensures
            r == self.same_kind(*scope),
    {
        match (self, scope) {
            (Scope::Block(_), Scope::Block(_)) => true,
            (Scope::String(_), Scope::String(_)) => true,
            (Scope::Object(_), Scope::Object(_)) => true,
            (Scope::Module(_), Scope::Module(_)) => true,
            _ => false,
        }
    }

    /// The name of the variant, as diagnostics show it.
    pub fn label(&self) -> (r: &'static str)
        ensures
            r@ == (match *self {
                Scope::Block(_) => "Block"@,
                Scope::String(_) => "String"@,
                Scope::Object(_) => "Object"@,
                Scope::Module(_) => "Module"@,
            }),
    {
        match self {
            Scope::Block(_) => "Block",
            Scope::String(_) => "String",
            Scope::Object(_) => "Object",
            Scope::Module(_) => "Module",
        }
    }
}

} // verus!
