use crate::flylang::module::slice::{LangModuleSlice, SliceView};
use crate::flylang::parser::ast::instructions::Instructions;
use vstd::prelude::*;

pub mod definables;
pub mod expressions;
pub mod instructions;
pub mod specials;

verus! {

/// An item of the tree: what it is, and the slice of the module that it was read from.
#[derive(Debug)]
pub struct Node<K = Instructions> {
    pub kind: K,
    pub location: LangModuleSlice,
}

/// What a node is, mathematically.
pub struct NodeView<K> {
    pub kind: K,
    pub location: SliceView,
}

pub type BoxedNode<K = Instructions> = Box<Node<K>>;

pub type Branches<K = Instructions> = Vec<Node<K>>;

impl<K> Node<K> {
    pub fn new(kind: K, location: &LangModuleSlice) -> (r: Self)
        ensures
            r.kind == kind,
            r.location@ == location@,
    {
        Self { kind, location: location.duplicate() }
    }

    pub fn kind(&self) -> (r: &K)
        ensures
            *r == self.kind,
    {
        &self.kind
    }

    pub fn location(&self) -> (r: &LangModuleSlice)
        ensures
            *r == self.location,
    {
        &self.location
    }

    /// The node that `with` makes of the kind and of the slice of this one.
    pub fn clone_as<Rk, F: FnOnce(K, LangModuleSlice) -> (Rk, LangModuleSlice)>(
        self,
        with: F,
    ) -> (r: Node<Rk>)
        requires
            with.requires((self.kind, self.location)),
        ensures
            with.ensures((self.kind, self.location), (r.kind, r.location)),
    {
        let (kind, location) = with(self.kind, self.location);
        Node { kind, location }
    }
}

} // verus!
