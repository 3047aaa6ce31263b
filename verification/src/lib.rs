//! Semantic-analysis core of a compiler front-end for a statically typed
//! language: a layered name resolver over a scope graph with a total
//! shadowing order, a glob-collection traversal for import resolution, a
//! pattern simplifier, and a Maranget-style exhaustiveness checker for
//! `match` expressions over enum-typed scrutinees.

use vstd::prelude::*;

pub mod bucket;
pub mod check_match;
pub mod domain;
pub mod exhaustiveness;
pub mod fold;
pub mod module_tree;
pub mod name_res;
pub mod pattern;
pub mod resolver;
pub mod scope_graph;
pub mod simplify;
pub mod text;
pub mod ty_lower;
pub mod types;

verus! {

/// A stable small identifier for an interned identifier (a name).
///
/// The surrounding compiler interns identifier text once per compilation;
/// this core only compares identifiers by id and looks their text up in an
/// [`IdentTable`] when rendering.
#[derive(Clone, Copy, Debug, PartialEq, Eq, Structural, Hash)]
pub struct IdentId(pub u32);

/// A stable identifier for a source span, owned by the external span tables.
#[derive(Clone, Copy, Debug, PartialEq, Eq, Structural, Hash)]
pub struct SpanId(pub u32);

/// A stable identifier for a `use` item, owned by the external importer.
#[derive(Clone, Copy, Debug, PartialEq, Eq, Structural, Hash)]
pub struct UseId(pub u32);

/// A builtin primitive type, identified by its index in the external
/// catalog's table of builtins.
#[derive(Clone, Copy, Debug, PartialEq, Eq, Structural, Hash)]
pub struct PrimTy(pub u32);

/// The identifier texts, indexed by [`IdentId`]. Supplied by the surrounding
/// compiler; this core reads it only to render names in diagnostics.
pub struct IdentTable {
    pub names: Vec<String>,
}

impl IdentTable {
    /// The text of `id`, as a sequence of characters.
    pub open spec fn spec_text(self, id: IdentId) -> Seq<char> {
        self.names@[id.0 as int]@
    }

    /// Whether `id` is a valid index into this table.
    pub open spec fn holds(self, id: IdentId) -> bool {
        id.0 < self.names@.len()
    }

    /// The text of the identifier `id`.
    pub fn text(&self, id: IdentId) -> (r: &String)
        requires
            self.holds(id),
        ensures
            r@ == self.spec_text(id),
    {
        &self.names[id.0 as usize]
    }
}

} // verus!
