//! The scope graph: nodes are scopes of a compilation unit, edges are named
//! relations between scopes. Built once per compilation unit by the external
//! lowering pass and append-only afterwards; this core only reads it.

use vstd::prelude::*;

use crate::domain::NameDomain;
use crate::types::EnumVariantId;
use crate::{IdentId, SpanId};

verus! {

/// A stable small identifier for a scope: an index into the graph's arena.
#[derive(Clone, Copy, Debug, PartialEq, Eq, Structural, Hash)]
pub struct ScopeId(pub u32);

/// A stable small identifier for a trait item.
#[derive(Clone, Copy, Debug, PartialEq, Eq, Structural, Hash)]
pub struct TraitId(pub u32);

/// The kind of item a scope of kind `Item` stands for.
#[derive(Clone, Copy, Debug, PartialEq, Eq, Structural, Hash)]
pub enum ItemKind {
    TopMod,
    Mod,
    Func,
    Struct,
    Contract,
    Enum,
    TypeAlias,
    Impl,
    Trait(TraitId),
    ImplTrait,
    Const,
    Use,
    Body,
}

/// A generic parameter declared by an item: a type parameter or a const
/// parameter.
#[derive(Clone, Copy, Debug, PartialEq, Eq, Structural, Hash)]
pub enum GenericParam {
    Type,
    Const,
}

/// What a scope is: an item, a block, a function parameter list entry, a
/// generic parameter, a field, or an enum variant.
#[derive(Clone, Copy, Debug, PartialEq, Eq, Structural, Hash)]
pub enum ScopeKind {
    Item(ItemKind),
    Block,
    FuncParam,
    /// The `idx`-th generic parameter of the item scope `owner`.
    GenericParam { owner: ScopeId, idx: u32 },
    Field,
    /// The scope of an enum variant, tagged with the variant it declares.
    Variant(EnumVariantId),
}

/// A named relation from one scope to another. Each name-carrying kind
/// stores the identifier it introduces.
#[derive(Clone, Copy, Debug, PartialEq, Eq, Structural, Hash)]
pub enum EdgeKind {
    /// The lexical parent of the scope.
    Lex,
    /// A module member.
    Mod(IdentId),
    /// A type member.
    Type(IdentId),
    /// A trait member.
    Trait(IdentId),
    /// A value member.
    Value(IdentId),
    /// A generic parameter.
    GenericParam(IdentId),
    /// A field.
    Field(IdentId),
    /// An enum variant.
    Variant(IdentId),
    /// The parent module, reached by the `super` keyword.
    Super,
    /// The ingot root module, reached by the `ingot` keyword.
    Ingot,
    /// The `self` value.
    SelfValue,
    /// The `Self` type.
    SelfTy,
    /// An anonymous edge; never resolvable.
    Anon,
}

/// An outgoing edge of a scope.
#[derive(Clone, Copy, Debug, PartialEq, Eq, Structural, Hash)]
pub struct Edge {
    pub dest: ScopeId,
    pub kind: EdgeKind,
}

/// One scope of the graph.
pub struct Scope {
    pub kind: ScopeKind,
    /// The scope's own declared name, if it has one.
    pub name: Option<IdentId>,
    /// The span of the scope's name, if it has one.
    pub name_span: Option<SpanId>,
    /// The outgoing edges, in a stable order fixed at build time.
    pub edges: Vec<Edge>,
    /// The generic parameters the scope's item declares, if any.
    pub params: Vec<GenericParam>,
}

/// The identifier ids that the keywords `super`, `ingot`, `self` and `Self`
/// were interned as.
#[derive(Clone, Copy, Debug, PartialEq, Eq, Structural, Hash)]
pub struct SpecialIdents {
    pub super_kw: IdentId,
    pub ingot_kw: IdentId,
    pub self_value_kw: IdentId,
    pub self_ty_kw: IdentId,
}

/// The scope graph of one compilation unit.
pub struct ScopeGraph {
    pub scopes: Vec<Scope>,
    pub special: SpecialIdents,
}

/// How a name query travels along one edge.
#[derive(Clone, Copy, Debug, PartialEq, Eq, Structural, Hash)]
pub enum PropagationResult {
    /// The edge's destination is a definitional match for the query.
    Terminated,
    /// The query should continue in the edge's destination (the lexical
    /// parent).
    Continuation,
    /// The edge is irrelevant to the query.
    UnPropagated,
}

/// How the named query `name`, with lexical lookup allowed iff `allow_lex`,
/// travels along an edge of kind `kind`.
pub open spec fn spec_propagate(
    kind: EdgeKind,
    special: SpecialIdents,
    name: IdentId,
    allow_lex: bool,
) -> PropagationResult {
    match kind {
        EdgeKind::Lex => if allow_lex {
            PropagationResult::Continuation
        } else {
            PropagationResult::UnPropagated
        },
        EdgeKind::Mod(n) => terminate_on(n == name),
        EdgeKind::Type(n) => terminate_on(n == name),
        EdgeKind::Trait(n) => terminate_on(n == name),
        EdgeKind::Value(n) => terminate_on(n == name),
        EdgeKind::GenericParam(n) => terminate_on(n == name),
        EdgeKind::Field(n) => terminate_on(n == name),
        EdgeKind::Variant(n) => terminate_on(n == name),
        EdgeKind::Super => terminate_on(name == special.super_kw),
        EdgeKind::Ingot => terminate_on(name == special.ingot_kw),
        EdgeKind::SelfValue => terminate_on(name == special.self_value_kw),
        EdgeKind::SelfTy => terminate_on(name == special.self_ty_kw),
        EdgeKind::Anon => PropagationResult::UnPropagated,
    }
}

/// `Terminated` when the condition holds, `UnPropagated` otherwise.
pub open spec fn terminate_on(hit: bool) -> PropagationResult {
    if hit {
        PropagationResult::Terminated
    } else {
        PropagationResult::UnPropagated
    }
}

/// How a glob collection travels along an edge of kind `kind`: only module,
/// type, trait, value and variant members are collected.
pub open spec fn spec_propagate_glob(kind: EdgeKind) -> PropagationResult {
    match kind {
        EdgeKind::Mod(_) => PropagationResult::Terminated,
        EdgeKind::Type(_) => PropagationResult::Terminated,
        EdgeKind::Trait(_) => PropagationResult::Terminated,
        EdgeKind::Value(_) => PropagationResult::Terminated,
        EdgeKind::Variant(_) => PropagationResult::Terminated,
        _ => PropagationResult::UnPropagated,
    }
}

impl EdgeKind {
    /// Dispatch of the name query `name` over this edge kind; `allow_lex`
    /// tells whether the query may continue into the lexical parent.
    pub fn propagate(&self, special: &SpecialIdents, name: IdentId, allow_lex: bool) -> (r:
        PropagationResult)
        ensures
            r == spec_propagate(*self, *special, name, allow_lex),
    {
        match *self {
            EdgeKind::Lex => if allow_lex {
                PropagationResult::Continuation
            } else {
                PropagationResult::UnPropagated
            },
            EdgeKind::Mod(n) => Self::terminated_if(n == name),
            EdgeKind::Type(n) => Self::terminated_if(n == name),
            EdgeKind::Trait(n) => Self::terminated_if(n == name),
            EdgeKind::Value(n) => Self::terminated_if(n == name),
            EdgeKind::GenericParam(n) => Self::terminated_if(n == name),
            EdgeKind::Field(n) => Self::terminated_if(n == name),
            EdgeKind::Variant(n) => Self::terminated_if(n == name),
            EdgeKind::Super => Self::terminated_if(name == special.super_kw),
            EdgeKind::Ingot => Self::terminated_if(name == special.ingot_kw),
            EdgeKind::SelfValue => Self::terminated_if(name == special.self_value_kw),
            EdgeKind::SelfTy => Self::terminated_if(name == special.self_ty_kw),
            EdgeKind::Anon => PropagationResult::UnPropagated,
        }
    }

    /// Dispatch of a glob collection over this edge kind.
    pub fn propagate_glob(&self) -> (r: PropagationResult)
        ensures
            r == spec_propagate_glob(*self),
    {
        match *self {
            EdgeKind::Mod(_) => PropagationResult::Terminated,
            EdgeKind::Type(_) => PropagationResult::Terminated,
            EdgeKind::Trait(_) => PropagationResult::Terminated,
            EdgeKind::Value(_) => PropagationResult::Terminated,
            EdgeKind::Variant(_) => PropagationResult::Terminated,
            _ => PropagationResult::UnPropagated,
        }
    }

    fn terminated_if(hit: bool) -> (r: PropagationResult)
        ensures
            r == terminate_on(hit),
    {
        if hit {
            PropagationResult::Terminated
        } else {
            PropagationResult::UnPropagated
        }
    }
}

impl ScopeGraph {
    /// How many scopes the graph holds.
    pub open spec fn spec_len(self) -> nat {
        self.scopes@.len()
    }

    /// Whether `s` is a valid scope id of this graph.
    pub open spec fn holds(self, s: ScopeId) -> bool {
        s.0 < self.scopes@.len()
    }

    /// The scope node of `s`.
    pub open spec fn spec_scope(self, s: ScopeId) -> Scope
        recommends
            self.holds(s),
    {
        self.scopes@[s.0 as int]
    }

    /// Well-formedness of one scope node, at index `i` of the arena:
    /// every edge stays inside the graph; a lexical edge points strictly
    /// backwards in the arena (scopes are interned parents first, so a
    /// lexical parent precedes its children); there is at most one lexical
    /// edge; every glob-collectable edge leads to a named scope; and a
    /// generic-parameter scope points at an owner that declares it.
    pub open spec fn scope_wf(self, i: int) -> bool
        recommends
            0 <= i < self.scopes@.len(),
    {
        let s = self.scopes@[i];
        &&& forall|j: int|
            0 <= j < s.edges@.len() ==> {
                let e = #[trigger] s.edges@[j];
                &&& (e.dest.0 as int) < self.scopes@.len()
                &&& (e.kind is Lex ==> (e.dest.0 as int) < i)
                &&& (spec_propagate_glob(e.kind) is Terminated ==> self.scopes@[e.dest.0 as int].name
                    is Some)
            }
        &&& forall|j: int, k: int|
            0 <= j < s.edges@.len() && 0 <= k < s.edges@.len() && (#[trigger] s.edges@[j].kind)
                is Lex && (#[trigger] s.edges@[k].kind) is Lex ==> j == k
        &&& match s.kind {
            ScopeKind::GenericParam { owner, idx } => {
                &&& (owner.0 as int) < self.scopes@.len()
                &&& idx < self.scopes@[owner.0 as int].params@.len()
            },
            _ => true,
        }
    }

    /// Well-formedness of the whole graph.
    pub open spec fn wf(self) -> bool {
        forall|i: int| 0 <= i < self.scopes@.len() ==> #[trigger] self.scope_wf(i)
    }

    /// The scope node of `s`.
    pub fn scope(&self, s: ScopeId) -> (r: &Scope)
        requires
            self.holds(s),
        ensures
            *r == self.spec_scope(s),
    {
        &self.scopes[s.0 as usize]
    }

    /// How many scopes the graph holds.
    pub fn len(&self) -> (r: usize)
        ensures
            r == self.spec_len(),
    {
        self.scopes.len()
    }
}

/// The domain a definitional resolution of `scope` belongs to.
pub open spec fn spec_domain_of_scope(graph: ScopeGraph, scope: ScopeId) -> NameDomain
    recommends
        graph.wf(),
        graph.holds(scope),
{
    match graph.spec_scope(scope).kind {
        ScopeKind::Item(ItemKind::Func) => NameDomain::spec_value(),
        ScopeKind::Item(ItemKind::Const) => NameDomain::spec_value(),
        ScopeKind::FuncParam => NameDomain::spec_value(),
        ScopeKind::Block => NameDomain::spec_value(),
        ScopeKind::Item(_) => NameDomain::spec_type(),
        ScopeKind::GenericParam { owner, idx } => {
            match graph.spec_scope(owner).params@[idx as int] {
                GenericParam::Type => NameDomain::spec_type(),
                GenericParam::Const => NameDomain::spec_type().spec_union(
                    NameDomain::spec_value(),
                ),
            }
        },
        ScopeKind::Field => NameDomain::spec_field(),
        ScopeKind::Variant(_) => NameDomain::spec_value(),
    }
}

impl NameDomain {
    /// The domain a definitional resolution of `scope` belongs to: functions,
    /// constants, parameters, blocks and variants introduce values; other
    /// items introduce types; a generic parameter introduces a type, and for
    /// a const parameter a value as well; a field introduces a field name.
    pub fn from_scope(graph: &ScopeGraph, scope: ScopeId) -> (r: NameDomain)
        requires
            graph.wf(),
            graph.holds(scope),
        ensures
            r == spec_domain_of_scope(*graph, scope),
    {
        proof {
            assert(graph.scope_wf(scope.0 as int));
        }
        match graph.scope(scope).kind {
            ScopeKind::Item(ItemKind::Func) => NameDomain::value_dom(),
            ScopeKind::Item(ItemKind::Const) => NameDomain::value_dom(),
            ScopeKind::FuncParam => NameDomain::value_dom(),
            ScopeKind::Block => NameDomain::value_dom(),
            ScopeKind::Item(_) => NameDomain::type_dom(),
            ScopeKind::GenericParam { owner, idx } => {
                match graph.scope(owner).params[idx as usize] {
                    GenericParam::Type => NameDomain::type_dom(),
                    GenericParam::Const => NameDomain::type_dom().union(NameDomain::value_dom()),
                }
            },
            ScopeKind::Field => NameDomain::field_dom(),
            ScopeKind::Variant(_) => NameDomain::value_dom(),
        }
    }
}

} // verus!
