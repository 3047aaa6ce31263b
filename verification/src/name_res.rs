//! The model of one resolved name: its kind (a scope or a builtin), the
//! domain it lives in, and its derivation, the provenance that defines the
//! shadowing order.

use core::cmp::Ordering;
use vstd::prelude::*;

use crate::domain::NameDomain;
use crate::scope_graph::{ItemKind, ScopeGraph, ScopeId, ScopeKind, TraitId};
use crate::{IdentId, IdentTable, PrimTy, SpanId, UseId};

verus! {

/// What a name resolved to: a scope of the graph, or a builtin primitive
/// type.
#[derive(Clone, Copy, Debug, PartialEq, Eq, Structural, Hash)]
pub enum NameResKind {
    Scope(ScopeId),
    Prim(PrimTy),
}

/// Where a resolution comes from. The order of the variants, high to low, is
/// the shadowing order: a definition in the scope itself, then a named
/// import, then a glob import, then anything inherited from an enclosing
/// scope (compared by unwrapping), then an external package root, then a
/// builtin primitive.
#[derive(Debug)]
pub enum NameDerivation {
    /// Derived from a definition in the current scope.
    Def,
    /// Derived from a named import in the current scope.
    NamedImported(UseId),
    /// Derived from a glob import in the current scope.
    GlobImported(UseId),
    /// Derived from the lexical parent scope.
    Lex(Box<NameDerivation>),
    /// Derived from an external ingot root.
    External,
    /// Derived from a builtin primitive.
    Prim,
}

/// The shadowing comparison between two derivations: `Def` over
/// `NamedImported` over `GlobImported` over `Lex` (two lexical derivations
/// compare by their inner derivations) over `External` over `Prim`.
pub open spec fn spec_deriv_cmp(a: NameDerivation, b: NameDerivation) -> Ordering
    decreases a,
{
    match (a, b) {
        (NameDerivation::Def, NameDerivation::Def) => Ordering::Equal,
        (NameDerivation::Def, _) => Ordering::Greater,
        (_, NameDerivation::Def) => Ordering::Less,
        (NameDerivation::NamedImported(_), NameDerivation::NamedImported(_)) => Ordering::Equal,
        (NameDerivation::NamedImported(_), _) => Ordering::Greater,
        (_, NameDerivation::NamedImported(_)) => Ordering::Less,
        (NameDerivation::GlobImported(_), NameDerivation::GlobImported(_)) => Ordering::Equal,
        (NameDerivation::GlobImported(_), _) => Ordering::Greater,
        (_, NameDerivation::GlobImported(_)) => Ordering::Less,
        (NameDerivation::Lex(l), NameDerivation::Lex(r)) => spec_deriv_cmp(*l, *r),
        (NameDerivation::Lex(_), _) => Ordering::Greater,
        (_, NameDerivation::Lex(_)) => Ordering::Less,
        (NameDerivation::External, NameDerivation::External) => Ordering::Equal,
        (NameDerivation::External, _) => Ordering::Greater,
        (_, NameDerivation::External) => Ordering::Less,
        (NameDerivation::Prim, NameDerivation::Prim) => Ordering::Equal,
    }
}

impl NameDerivation {
    /// The shadowing comparison against `other`.
    pub fn cmp(&self, other: &NameDerivation) -> (r: Ordering)
        ensures
            r == spec_deriv_cmp(*self, *other),
        decreases *self,
    {
        match (self, other) {
            (NameDerivation::Def, NameDerivation::Def) => Ordering::Equal,
            (NameDerivation::Def, _) => Ordering::Greater,
            (_, NameDerivation::Def) => Ordering::Less,
            (NameDerivation::NamedImported(_), NameDerivation::NamedImported(_)) => Ordering::Equal,
            (NameDerivation::NamedImported(_), _) => Ordering::Greater,
            (_, NameDerivation::NamedImported(_)) => Ordering::Less,
            (NameDerivation::GlobImported(_), NameDerivation::GlobImported(_)) => Ordering::Equal,
            (NameDerivation::GlobImported(_), _) => Ordering::Greater,
            (_, NameDerivation::GlobImported(_)) => Ordering::Less,
            (NameDerivation::Lex(l), NameDerivation::Lex(r)) => l.cmp(r),
            (NameDerivation::Lex(_), _) => Ordering::Greater,
            (_, NameDerivation::Lex(_)) => Ordering::Less,
            (NameDerivation::External, NameDerivation::External) => Ordering::Equal,
            (NameDerivation::External, _) => Ordering::Greater,
            (_, NameDerivation::External) => Ordering::Less,
            (NameDerivation::Prim, NameDerivation::Prim) => Ordering::Equal,
        }
    }

    /// An exact copy of this derivation.
    pub fn deep_clone(&self) -> (r: NameDerivation)
        ensures
            r == *self,
        decreases *self,
    {
        match self {
            NameDerivation::Def => NameDerivation::Def,
            NameDerivation::NamedImported(u) => NameDerivation::NamedImported(*u),
            NameDerivation::GlobImported(u) => NameDerivation::GlobImported(*u),
            NameDerivation::Lex(inner) => NameDerivation::Lex(Box::new(inner.deep_clone())),
            NameDerivation::External => NameDerivation::External,
            NameDerivation::Prim => NameDerivation::Prim,
        }
    }

    /// Whether the two derivations are exactly equal, payloads included.
    pub fn same_as(&self, other: &NameDerivation) -> (r: bool)
        ensures
            r <==> *self == *other,
        decreases *self,
    {
        match (self, other) {
            (NameDerivation::Def, NameDerivation::Def) => true,
            (NameDerivation::NamedImported(a), NameDerivation::NamedImported(b)) => a == b,
            (NameDerivation::GlobImported(a), NameDerivation::GlobImported(b)) => a == b,
            (NameDerivation::Lex(a), NameDerivation::Lex(b)) => a.same_as(b),
            (NameDerivation::External, NameDerivation::External) => true,
            (NameDerivation::Prim, NameDerivation::Prim) => true,
            _ => false,
        }
    }

    /// Wraps the derivation one lexical level deeper, in place.
    pub fn lexed(&mut self)
        ensures
            *final(self) is Lex,
            *final(self)->Lex_0 == *old(self),
    {
        let inner = self.deep_clone();
        *self = NameDerivation::Lex(Box::new(inner));
    }

    /// The innermost non-lexical derivation under any number of `Lex` wrappers.
    pub open spec fn spec_innermost(self) -> NameDerivation
        decreases self,
    {
        match self {
            NameDerivation::Lex(inner) => inner.spec_innermost(),
            _ => self,
        }
    }
}

impl Clone for NameDerivation {
    /// An exact copy of this derivation.
    fn clone(&self) -> (r: NameDerivation)
        ensures
            r == *self,
    {
        self.deep_clone()
    }
}

/// Shadowing order law: a definition outranks a named import, which outranks
/// a glob import, which outranks any lexically inherited derivation, which
/// outranks an external ingot root, which outranks a builtin primitive.
pub proof fn lemma_derivation_shadowing_order(u1: UseId, u2: UseId, lex: NameDerivation)
    requires
        lex is Lex,
    ensures
        spec_deriv_cmp(NameDerivation::Def, NameDerivation::NamedImported(u1))
            == Ordering::Greater,
        spec_deriv_cmp(NameDerivation::NamedImported(u1), NameDerivation::GlobImported(u2))
            == Ordering::Greater,
        spec_deriv_cmp(NameDerivation::GlobImported(u1), lex) == Ordering::Greater,
        spec_deriv_cmp(lex, NameDerivation::External) == Ordering::Greater,
        spec_deriv_cmp(NameDerivation::External, NameDerivation::Prim) == Ordering::Greater,
{
}

/// The failure modes of one name query, per domain.
#[derive(Clone, Debug)]
pub enum NameResolutionError {
    /// The name is not found.
    NotFound,
    /// The name is invalid in parsing; already reported upstream and never
    /// re-reported here.
    Invalid,
    /// The name is found, but not visible from the reference site. Carries
    /// the span of the found entity's name, when it has one.
    Invisible(Option<SpanId>),
    /// The name is found, but ambiguous between the carried candidates.
    Ambiguous(Vec<NameRes>),
    /// The name is found, but cannot be used in the middle of a use path.
    InvalidPathSegment(NameRes),
    /// The definition conflicts with other definitions at the carried spans.
    Conflict(IdentId, Vec<SpanId>),
}

/// The outcome of one name query in one domain.
pub type NameResolutionResult<T> = Result<T, NameResolutionError>;

/// One resolved name. Immutable once built; cloned when merged into buckets.
#[derive(Clone, Debug)]
pub struct NameRes {
    /// The kind of the resolution.
    pub kind: NameResKind,
    /// The domain the resolution belongs to.
    pub domain: NameDomain,
    /// Where the resolution is derived from.
    pub derivation: NameDerivation,
}

/// Either kind of entity a visibility question can be asked about: a scope,
/// or a `use` item.
#[derive(Clone, Copy, Debug, PartialEq, Eq, Structural, Hash)]
pub enum VisTarget {
    Scope(ScopeId),
    Use(UseId),
}

/// The external visibility oracle, as data: module-privacy rules are decided
/// outside this core, and handed in as a default answer with a list of
/// exceptional `(target, from)` pairs that answer the other way.
pub struct VisibilityTable {
    pub default_visible: bool,
    pub exceptions: Vec<(VisTarget, ScopeId)>,
}

impl VisibilityTable {
    /// Whether `(target, from)` is listed as an exception.
    pub open spec fn spec_excepted(self, target: VisTarget, from: ScopeId) -> bool {
        exists|i: int| 0 <= i < self.exceptions@.len() && self.exceptions@[i] == (target, from)
    }

    /// Whether the oracle answers that `target` is visible from `from`.
    pub open spec fn spec_visible(self, target: VisTarget, from: ScopeId) -> bool {
        self.default_visible != self.spec_excepted(target, from)
    }

    /// Whether the oracle answers that `target` is visible from `from`.
    pub fn visible(&self, target: VisTarget, from: ScopeId) -> (r: bool)
        ensures
            r == self.spec_visible(target, from),
    {
        let mut i: usize = 0;
        let mut excepted: bool = false;
        while i < self.exceptions.len()
            invariant
                0 <= i <= self.exceptions@.len(),
                excepted <==> exists|k: int| 0 <= k < i && self.exceptions@[k] == (target, from),
            decreases self.exceptions@.len() - i,
        {
            let (t, f) = self.exceptions[i];
            if t == target && f == from {
                excepted = true;
            }
            i = i + 1;
        }
        self.default_visible != excepted
    }
}

/// The innermost non-lexical derivation under any number of `Lex` wrappers.
pub fn innermost(d: &NameDerivation) -> (r: &NameDerivation)
    ensures
        *r == d.spec_innermost(),
        !(*r is Lex),
    decreases *d,
{
    match d {
        NameDerivation::Lex(inner) => innermost(&**inner),
        _ => d,
    }
}

/// What `is_visible` answers for `res` seen from `from`: the innermost
/// non-lexical derivation decides; a definition, external root or primitive
/// derivation asks the oracle about the resolved scope (a primitive kind is
/// always visible), and an import derivation asks about its `use` item.
pub open spec fn spec_is_visible(res: NameRes, vis: VisibilityTable, from: ScopeId) -> bool {
    match res.derivation.spec_innermost() {
        NameDerivation::NamedImported(u) => vis.spec_visible(VisTarget::Use(u), from),
        NameDerivation::GlobImported(u) => vis.spec_visible(VisTarget::Use(u), from),
        _ => match res.kind {
            NameResKind::Scope(s) => vis.spec_visible(VisTarget::Scope(s), from),
            NameResKind::Prim(_) => true,
        },
    }
}

impl NameRes {
    /// Builds a resolution for a scope.
    pub fn new_from_scope(scope: ScopeId, domain: NameDomain, derivation: NameDerivation) -> (r:
        NameRes)
        ensures
            r == (NameRes { kind: NameResKind::Scope(scope), domain, derivation }),
    {
        NameRes { kind: NameResKind::Scope(scope), domain, derivation }
    }

    /// Builds a resolution for a builtin primitive type: type domain, `Prim`
    /// derivation.
    pub fn new_prim(prim: PrimTy) -> (r: NameRes)
        ensures
            r == (NameRes {
                kind: NameResKind::Prim(prim),
                domain: NameDomain::spec_type(),
                derivation: NameDerivation::Prim,
            }),
    {
        NameRes {
            kind: NameResKind::Prim(prim),
            domain: NameDomain::type_dom(),
            derivation: NameDerivation::Prim,
        }
    }

    /// An exact copy of this resolution.
    pub fn deep_clone(&self) -> (r: NameRes)
        ensures
            r == *self,
    {
        NameRes { kind: self.kind, domain: self.domain, derivation: self.derivation.deep_clone() }
    }

    /// Whether the name is visible from `from`, by the external oracle: the
    /// nested lexical derivations are unwrapped to the underlying one, then a
    /// definition is checked by its scope and an import by its `use` item.
    pub fn is_visible(&self, vis: &VisibilityTable, from: ScopeId) -> (r: bool)
        ensures
            r == spec_is_visible(*self, *vis, from),
    {
        let d = innermost(&self.derivation);
        match d {
            NameDerivation::NamedImported(u) => vis.visible(VisTarget::Use(*u), from),
            NameDerivation::GlobImported(u) => vis.visible(VisTarget::Use(*u), from),
            _ => match self.kind {
                NameResKind::Scope(s) => vis.visible(VisTarget::Scope(s), from),
                NameResKind::Prim(_) => true,
            },
        }
    }

    /// Whether the resolution is a type: a primitive, a type-defining item
    /// (struct, enum, contract, type alias), or a type generic parameter.
    pub fn is_type(&self, graph: &ScopeGraph) -> (r: bool)
        requires
            graph.wf(),
            self.wf_in(*graph),
        ensures
            r == spec_res_is_type(*self, *graph),
    {
        proof {
            if self.kind is Scope {
                assert(graph.scope_wf(self.kind->Scope_0.0 as int));
            }
        }
        match self.kind {
            NameResKind::Prim(_) => true,
            NameResKind::Scope(s) => match graph.scope(s).kind {
                ScopeKind::Item(ItemKind::Struct) => true,
                ScopeKind::Item(ItemKind::Enum) => true,
                ScopeKind::Item(ItemKind::Contract) => true,
                ScopeKind::Item(ItemKind::TypeAlias) => true,
                ScopeKind::GenericParam { owner, idx } => matches!(
                    graph.scope(owner).params[idx as usize],
                    crate::scope_graph::GenericParam::Type
                ),
                _ => false,
            },
        }
    }

    /// The trait item the name resolved to, if it is one.
    pub fn trait_(&self, graph: &ScopeGraph) -> (r: Option<TraitId>)
        requires
            graph.wf(),
            self.wf_in(*graph),
        ensures
            r == spec_res_trait(*self, *graph),
    {
        match self.kind {
            NameResKind::Scope(s) => match graph.scope(s).kind {
                ScopeKind::Item(ItemKind::Trait(t)) => Some(t),
                _ => None,
            },
            NameResKind::Prim(_) => None,
        }
    }

    /// Whether the resolution is a trait.
    pub fn is_trait(&self, graph: &ScopeGraph) -> (r: bool)
        requires
            graph.wf(),
            self.wf_in(*graph),
        ensures
            r == (spec_res_trait(*self, *graph) is Some),
    {
        self.trait_(graph).is_some()
    }

    /// Whether the resolution is an enum item.
    pub fn is_enum(&self, graph: &ScopeGraph) -> (r: bool)
        requires
            graph.wf(),
            self.wf_in(*graph),
        ensures
            r == spec_res_is_enum(*self, *graph),
    {
        match self.kind {
            NameResKind::Prim(_) => false,
            NameResKind::Scope(s) => matches!(graph.scope(s).kind, ScopeKind::Item(ItemKind::Enum)),
        }
    }

    /// Whether the resolution is a module (a top-level or an inner one).
    pub fn is_mod(&self, graph: &ScopeGraph) -> (r: bool)
        requires
            graph.wf(),
            self.wf_in(*graph),
        ensures
            r == spec_res_is_mod(*self, *graph),
    {
        match self.kind {
            NameResKind::Prim(_) => false,
            NameResKind::Scope(s) => match graph.scope(s).kind {
                ScopeKind::Item(ItemKind::TopMod) => true,
                ScopeKind::Item(ItemKind::Mod) => true,
                _ => false,
            },
        }
    }

    /// Whether the resolution is a value: neither a type nor a trait.
    pub fn is_value(&self, graph: &ScopeGraph) -> (r: bool)
        requires
            graph.wf(),
            self.wf_in(*graph),
        ensures
            r == (!spec_res_is_type(*self, *graph) && spec_res_trait(*self, *graph) is None),
    {
        !self.is_type(graph) && !self.is_trait(graph)
    }

    /// The scope of the resolution, unless it is a builtin primitive.
    pub fn scope(&self) -> (r: Option<ScopeId>)
        ensures
            r == (match self.kind {
                NameResKind::Scope(s) => Some(s),
                NameResKind::Prim(_) => None,
            }),
    {
        match self.kind {
            NameResKind::Scope(s) => Some(s),
            NameResKind::Prim(_) => None,
        }
    }

    /// Whether the resolution can be the subject of an import: its domain is
    /// exactly the type domain or exactly the value domain.
    pub fn is_importable(&self) -> (r: bool)
        ensures
            r == (self.domain == NameDomain::spec_type() || self.domain
                == NameDomain::spec_value()),
    {
        let d = self.domain;
        d == NameDomain::type_dom() || d == NameDomain::value_dom()
    }

    /// Whether the resolution stays inside `graph`.
    pub open spec fn wf_in(self, graph: ScopeGraph) -> bool {
        match self.kind {
            NameResKind::Scope(s) => graph.holds(s),
            NameResKind::Prim(_) => true,
        }
    }
}

/// Whether `res` is a type: see [`NameRes::is_type`].
pub open spec fn spec_res_is_type(res: NameRes, graph: ScopeGraph) -> bool {
    match res.kind {
        NameResKind::Prim(_) => true,
        NameResKind::Scope(s) => match graph.spec_scope(s).kind {
            ScopeKind::Item(ItemKind::Struct) => true,
            ScopeKind::Item(ItemKind::Enum) => true,
            ScopeKind::Item(ItemKind::Contract) => true,
            ScopeKind::Item(ItemKind::TypeAlias) => true,
            ScopeKind::GenericParam { owner, idx } => graph.spec_scope(owner).params@[idx as int]
                is Type,
            _ => false,
        },
    }
}

/// The trait `res` resolved to, if any: see [`NameRes::trait_`].
pub open spec fn spec_res_trait(res: NameRes, graph: ScopeGraph) -> Option<TraitId> {
    match res.kind {
        NameResKind::Scope(s) => match graph.spec_scope(s).kind {
            ScopeKind::Item(ItemKind::Trait(t)) => Some(t),
            _ => None,
        },
        NameResKind::Prim(_) => None,
    }
}

/// Whether `res` is an enum item: see [`NameRes::is_enum`].
pub open spec fn spec_res_is_enum(res: NameRes, graph: ScopeGraph) -> bool {
    match res.kind {
        NameResKind::Prim(_) => false,
        NameResKind::Scope(s) => graph.spec_scope(s).kind == ScopeKind::Item(ItemKind::Enum),
    }
}

/// Whether `res` is a module: see [`NameRes::is_mod`].
pub open spec fn spec_res_is_mod(res: NameRes, graph: ScopeGraph) -> bool {
    match res.kind {
        NameResKind::Prim(_) => false,
        NameResKind::Scope(s) => match graph.spec_scope(s).kind {
            ScopeKind::Item(ItemKind::TopMod) => true,
            ScopeKind::Item(ItemKind::Mod) => true,
            _ => false,
        },
    }
}


impl NameResKind {
    /// The span of the resolved entity's name: a scope's recorded name
    /// span; a primitive has none.
    pub fn name_span(self, graph: &ScopeGraph) -> (r: Option<SpanId>)
        requires
            match self {
                NameResKind::Scope(s) => graph.holds(s),
                NameResKind::Prim(_) => true,
            },
        ensures
            r == (match self {
                NameResKind::Scope(s) => graph.spec_scope(s).name_span,
                NameResKind::Prim(_) => None::<SpanId>,
            }),
    {
        match self {
            NameResKind::Scope(s) => graph.scope(s).name_span,
            NameResKind::Prim(_) => None,
        }
    }

    /// The name of the resolved entity. The resolved scope must be a named
    /// one, and a primitive must be declared in the catalog.
    pub fn name(self, graph: &ScopeGraph, env: &crate::resolver::ExternalEnv) -> (r: IdentId)
        requires
            match self {
                NameResKind::Scope(s) => graph.holds(s) && graph.spec_scope(s).name is Some,
                NameResKind::Prim(p) => env.spec_prim_name(p) is Some,
            },
        ensures
            r == (match self {
                NameResKind::Scope(s) => graph.spec_scope(s).name->0,
                NameResKind::Prim(p) => env.spec_prim_name(p)->0,
            }),
    {
        match self {
            NameResKind::Scope(s) => match graph.scope(s).name {
                Some(n) => n,
                None => vstd::pervasive::unreached(),
            },
            NameResKind::Prim(p) => match env.prim_name(p) {
                Some(n) => n,
                None => vstd::pervasive::unreached(),
            },
        }
    }
}

/// What `pretty_path` shows for a resolution: the resolved entity's own
/// name, where the graph, the catalog and the identifier table know it.
pub open spec fn spec_pretty_path(
    graph: ScopeGraph,
    env: crate::resolver::ExternalEnv,
    tbl: IdentTable,
    res: NameRes,
) -> Option<Seq<char>> {
    match res.kind {
        NameResKind::Scope(s) => if graph.holds(s) && graph.spec_scope(s).name is Some
            && tbl.holds(graph.spec_scope(s).name->0) {
            Some(tbl.spec_text(graph.spec_scope(s).name->0))
        } else {
            None
        },
        NameResKind::Prim(p) => match env.spec_prim_name(p) {
            Some(n) => if tbl.holds(n) {
                Some(tbl.spec_text(n))
            } else {
                None
            },
            None => None,
        },
    }
}

impl NameRes {
    /// The resolved entity's name as text, where the graph, the builtin
    /// catalog and the identifier table know it.
    pub fn pretty_path(
        &self,
        graph: &ScopeGraph,
        env: &crate::resolver::ExternalEnv,
        tbl: &IdentTable,
    ) -> (r: Option<String>)
        ensures
            match r {
                Some(text) => spec_pretty_path(*graph, *env, *tbl, *self) == Some(text@),
                None => spec_pretty_path(*graph, *env, *tbl, *self) is None,
            },
    {
        match self.kind {
            NameResKind::Scope(s) => {
                if (s.0 as usize) >= graph.len() {
                    return None;
                }
                match graph.scope(s).name {
                    Some(n) => {
                        if (n.0 as usize) < tbl.names.len() {
                            Some(String::from_str(tbl.text(n).as_str()))
                        } else {
                            None
                        }
                    },
                    None => None,
                }
            },
            NameResKind::Prim(p) => match env.prim_name(p) {
                Some(n) => {
                    if (n.0 as usize) < tbl.names.len() {
                        Some(String::from_str(tbl.text(n).as_str()))
                    } else {
                        None
                    }
                },
                None => None,
            },
        }
    }
}

} // verus!
