//! The name resolver: evaluates one name query against the scope graph and
//! the importer's tables, in six strictly ordered tiers, merging each tier's
//! candidates into the bucket by the push rule.

use vstd::prelude::*;

use crate::bucket::{
    spec_merge, spec_push, spec_set_lexed, BucketView, NameResBucket,
};
use crate::domain::NameDomain;
use crate::name_res::{spec_is_visible, NameDerivation, NameRes, NameResKind, VisibilityTable};
use crate::scope_graph::{
    spec_domain_of_scope, spec_propagate, spec_propagate_glob, Edge, PropagationResult, ScopeGraph,
    ScopeId,
};
use crate::{IdentId, PrimTy};

verus! {

/// The three independent switches of one name query: whether the lookup may
/// fall back to the lexical parent, to external ingots and builtins, and
/// whether glob imports are consulted.
#[derive(Clone, Copy, Debug, PartialEq, Eq, Structural, Hash)]
pub struct QueryDirective {
    /// Propagate the query to the lexical parent scope when the name is not
    /// found in the current scope.
    pub allow_lex: bool,
    /// Consult external ingots and builtin types.
    pub allow_external: bool,
    /// Consult glob imports.
    pub allow_glob: bool,
}

impl QueryDirective {
    /// The default directive: lexical lookup, external ingots and builtins,
    /// and glob imports are all allowed.
    pub fn new() -> (r: QueryDirective)
        ensures
            r == (QueryDirective { allow_lex: true, allow_external: true, allow_glob: true }),
    {
        QueryDirective { allow_lex: true, allow_external: true, allow_glob: true }
    }

    /// The directive with lexical lookup disallowed.
    pub fn disallow_lex(self) -> (r: QueryDirective)
        ensures
            r == (QueryDirective { allow_lex: false, ..self }),
    {
        QueryDirective { allow_lex: false, ..self }
    }

    /// The directive with external ingots and builtins disallowed.
    pub fn disallow_external(self) -> (r: QueryDirective)
        ensures
            r == (QueryDirective { allow_external: false, ..self }),
    {
        QueryDirective { allow_external: false, ..self }
    }

    /// The directive with glob imports disallowed.
    pub fn disallow_glob(self) -> (r: QueryDirective)
        ensures
            r == (QueryDirective { allow_glob: false, ..self }),
    {
        QueryDirective { allow_glob: false, ..self }
    }
}

impl Default for QueryDirective {
    /// The default directive allows everything.
    fn default() -> (r: QueryDirective)
        ensures
            r == (QueryDirective { allow_lex: true, allow_external: true, allow_glob: true }),
    {
        QueryDirective::new()
    }
}

/// One name query: the identifier to resolve, the scope to resolve it in,
/// and the directive controlling the lookup. Queries are pure functions of
/// these inputs plus the scope graph and import tables, so the surrounding
/// incremental substrate memoizes them by this triple.
#[derive(Clone, Copy, Debug, PartialEq, Eq, Structural, Hash)]
pub struct EarlyNameQueryId {
    /// The name to be resolved.
    pub name: IdentId,
    /// The scope where the name is resolved.
    pub scope: ScopeId,
    pub directive: QueryDirective,
}

impl EarlyNameQueryId {
    pub fn new(name: IdentId, scope: ScopeId, directive: QueryDirective) -> (r: EarlyNameQueryId)
        ensures
            r == (EarlyNameQueryId { name, scope, directive }),
    {
        EarlyNameQueryId { name, scope, directive }
    }
}

/// The external catalog of names visible beyond the compilation unit: the
/// declared external ingots, each with the scope of its root module, and the
/// builtin primitive types, each with its name.
pub struct ExternalEnv {
    pub external_ingots: Vec<(IdentId, ScopeId)>,
    pub prims: Vec<(IdentId, PrimTy)>,
}

impl ExternalEnv {
    /// The name of the builtin primitive `p`, if it is declared.
    pub open spec fn spec_prim_name(self, p: PrimTy) -> Option<IdentId> {
        first_prim_name_from(self.prims@, p, 0)
    }

    /// The name of the builtin primitive `p`, if it is declared.
    pub fn prim_name(&self, p: PrimTy) -> (r: Option<IdentId>)
        ensures
            r == self.spec_prim_name(p),
    {
        prim_name_from(&self.prims, p, 0)
    }
}

/// The name of the first entry for primitive `p`, from `i` on.
pub open spec fn first_prim_name_from(prims: Seq<(IdentId, PrimTy)>, p: PrimTy, i: int) -> Option<
    IdentId,
>
    decreases prims.len() - i,
{
    if i < 0 || i >= prims.len() {
        None
    } else if prims[i].1 == p {
        Some(prims[i].0)
    } else {
        first_prim_name_from(prims, p, i + 1)
    }
}

/// First-match search of the builtin table, mirroring
/// [`first_prim_name_from`].
fn prim_name_from(prims: &Vec<(IdentId, PrimTy)>, p: PrimTy, i: usize) -> (r: Option<IdentId>)
    requires
        i <= prims@.len(),
    ensures
        r == first_prim_name_from(prims@, p, i as int),
    decreases prims@.len() - i,
{
    if i == prims.len() {
        None
    } else if prims[i].1 == p {
        Some(prims[i].0)
    } else {
        prim_name_from(prims, p, i + 1)
    }
}

/// The per-scope tables of one glob import pass: for each `use` site, the
/// names it brings in, each with the resolutions it carries.
pub struct GlobImportTable {
    pub entries: Vec<(crate::UseId, Vec<(IdentId, Vec<NameRes>)>)>,
}

/// The read-only interface to the external import-resolution fixed point:
/// per scope, the fully resolved named imports (one bucket per identifier)
/// and the glob import table.
pub struct Importer {
    pub named: Vec<(ScopeId, Vec<(IdentId, NameResBucket)>)>,
    pub globs: Vec<(ScopeId, GlobImportTable)>,
}

/// The index of the first entry of `named` for `scope`, from `i` on.
pub open spec fn first_named_scope_from(
    named: Seq<(ScopeId, Vec<(IdentId, NameResBucket)>)>,
    scope: ScopeId,
    i: int,
) -> Option<int>
    decreases named.len() - i,
{
    if i < 0 || i >= named.len() {
        None
    } else if named[i].0 == scope {
        Some(i)
    } else {
        first_named_scope_from(named, scope, i + 1)
    }
}

/// The index of the first entry of a per-scope named-import table for
/// `name`, from `j` on.
pub open spec fn first_named_ident_from(
    table: Seq<(IdentId, NameResBucket)>,
    name: IdentId,
    j: int,
) -> Option<int>
    decreases table.len() - j,
{
    if j < 0 || j >= table.len() {
        None
    } else if table[j].0 == name {
        Some(j)
    } else {
        first_named_ident_from(table, name, j + 1)
    }
}

/// The index of the first glob table for `scope`, from `i` on.
pub open spec fn first_glob_scope_from(
    globs: Seq<(ScopeId, GlobImportTable)>,
    scope: ScopeId,
    i: int,
) -> Option<int>
    decreases globs.len() - i,
{
    if i < 0 || i >= globs.len() {
        None
    } else if globs[i].0 == scope {
        Some(i)
    } else {
        first_glob_scope_from(globs, scope, i + 1)
    }
}

/// The index of the first entry of one `use` site's name map for `name`,
/// from `j` on.
pub open spec fn first_glob_ident_from(
    table: Seq<(IdentId, Vec<NameRes>)>,
    name: IdentId,
    j: int,
) -> Option<int>
    decreases table.len() - j,
{
    if j < 0 || j >= table.len() {
        None
    } else if table[j].0 == name {
        Some(j)
    } else {
        first_glob_ident_from(table, name, j + 1)
    }
}

impl Importer {
    /// The named-import bucket recorded for `name` in `scope`, as a view.
    pub open spec fn spec_named_bucket(self, scope: ScopeId, name: IdentId) -> Option<BucketView> {
        match first_named_scope_from(self.named@, scope, 0) {
            None => None,
            Some(i) => match first_named_ident_from(self.named@[i].1@, name, 0) {
                None => None,
                Some(j) => Some(self.named@[i].1@[j].1@),
            },
        }
    }

    /// The glob-derived resolutions recorded for `name` in `scope`: the
    /// per-`use`-site lists, in table order.
    pub open spec fn spec_glob_lists(self, scope: ScopeId, name: IdentId) -> Seq<Seq<NameRes>> {
        match first_glob_scope_from(self.globs@, scope, 0) {
            None => Seq::empty(),
            Some(i) => spec_glob_lists_of_table(self.globs@[i].1.entries@, name),
        }
    }

    /// The glob-derived resolutions for `name` in `scope`, flattened across
    /// `use` sites in table order.
    pub open spec fn spec_glob_reses(self, scope: ScopeId, name: IdentId) -> Seq<NameRes> {
        flatten_prefix(self.spec_glob_lists(scope, name), self.spec_glob_lists(scope, name).len() as int)
    }

    /// The named-import bucket recorded for `name` in `scope`.
    pub fn named_bucket_for(&self, scope: ScopeId, name: IdentId) -> (r: Option<&NameResBucket>)
        ensures
            match r {
                Some(b) => self.spec_named_bucket(scope, name) == Some(b@),
                None => self.spec_named_bucket(scope, name) is None,
            },
    {
        match find_named_scope(&self.named, scope, 0) {
            None => None,
            Some(table) => match find_named_ident(table, name, 0) {
                None => None,
                Some(b) => Some(b),
            },
        }
    }
}

/// The per-`use`-site lists of resolutions for `name` in one glob table, in
/// order; a site without the name contributes an empty list.
pub open spec fn spec_glob_lists_of_table(
    entries: Seq<(crate::UseId, Vec<(IdentId, Vec<NameRes>)>)>,
    name: IdentId,
) -> Seq<Seq<NameRes>> {
    entries.map_values(
        |e: (crate::UseId, Vec<(IdentId, Vec<NameRes>)>)|
            match first_glob_ident_from(e.1@, name, 0) {
                None => Seq::<NameRes>::empty(),
                Some(j) => e.1@[j].1@,
            },
    )
}

/// The concatenation of the first `i` of the given lists.
pub open spec fn flatten_prefix(lists: Seq<Seq<NameRes>>, i: int) -> Seq<NameRes>
    decreases i,
{
    if i <= 0 {
        Seq::empty()
    } else {
        flatten_prefix(lists, i - 1) + lists[i - 1]
    }
}

/// First-match search of the named-import tables, mirroring
/// [`first_named_scope_from`].
fn find_named_scope(
    named: &Vec<(ScopeId, Vec<(IdentId, NameResBucket)>)>,
    scope: ScopeId,
    i: usize,
) -> (r: Option<&Vec<(IdentId, NameResBucket)>>)
    requires
        i <= named@.len(),
    ensures
        match r {
            Some(table) => exists|k: int|
                first_named_scope_from(named@, scope, i as int) == Some(k) && *table == named@[k].1,
            None => first_named_scope_from(named@, scope, i as int) is None,
        },
    decreases named@.len() - i,
{
    if i == named.len() {
        None
    } else if named[i].0 == scope {
        Some(&named[i].1)
    } else {
        find_named_scope(named, scope, i + 1)
    }
}

/// First-match search of one scope's named-import table, mirroring
/// [`first_named_ident_from`].
fn find_named_ident(table: &Vec<(IdentId, NameResBucket)>, name: IdentId, j: usize) -> (r: Option<
    &NameResBucket,
>)
    requires
        j <= table@.len(),
    ensures
        match r {
            Some(b) => exists|k: int|
                first_named_ident_from(table@, name, j as int) == Some(k) && *b == table@[k].1,
            None => first_named_ident_from(table@, name, j as int) is None,
        },
    decreases table@.len() - j,
{
    if j == table.len() {
        None
    } else if table[j].0 == name {
        Some(&table[j].1)
    } else {
        find_named_ident(table, name, j + 1)
    }
}

/// The state of the local-edge tier while it walks a scope's edges: the
/// bucket so far, the destinations already recorded (so a destination
/// reachable over two edges is pushed once), and the lexical parent if one
/// was seen.
pub struct LocalTierState {
    pub bucket: BucketView,
    pub found: Seq<ScopeId>,
    pub parent: Option<ScopeId>,
}

/// One step of the local-edge tier over `edge`.
pub open spec fn spec_local_step(
    graph: ScopeGraph,
    q: EarlyNameQueryId,
    st: LocalTierState,
    edge: Edge,
) -> LocalTierState {
    match spec_propagate(edge.kind, graph.special, q.name, q.directive.allow_lex) {
        PropagationResult::Terminated => if st.found.contains(edge.dest) {
            st
        } else {
            LocalTierState {
                bucket: spec_push(
                    st.bucket,
                    NameRes {
                        kind: NameResKind::Scope(edge.dest),
                        domain: spec_domain_of_scope(graph, edge.dest),
                        derivation: NameDerivation::Def,
                    },
                ),
                found: st.found.push(edge.dest),
                parent: st.parent,
            }
        },
        PropagationResult::Continuation => LocalTierState { parent: Some(edge.dest), ..st },
        PropagationResult::UnPropagated => st,
    }
}

/// The local-edge tier after the first `i` edges of the query's scope.
pub open spec fn spec_local_prefix(graph: ScopeGraph, q: EarlyNameQueryId, i: int) -> LocalTierState
    decreases i,
{
    if i <= 0 {
        LocalTierState { bucket: BucketView::empty(), found: Seq::empty(), parent: None }
    } else {
        spec_local_step(
            graph,
            q,
            spec_local_prefix(graph, q, i - 1),
            graph.spec_scope(q.scope).edges@[i - 1],
        )
    }
}

/// The bucket after the first `i` of the given resolutions were pushed.
pub open spec fn spec_push_prefix(b: BucketView, list: Seq<NameRes>, i: int) -> BucketView
    decreases i,
{
    if i <= 0 {
        b
    } else {
        spec_push(spec_push_prefix(b, list, i - 1), list[i - 1])
    }
}

/// The bucket after the first `i` external-ingot entries were checked
/// against the query name: a matching entry pushes its root module with the
/// `External` derivation in the type domain.
pub open spec fn spec_push_ingots_prefix(
    b: BucketView,
    ingots: Seq<(IdentId, ScopeId)>,
    name: IdentId,
    i: int,
) -> BucketView
    decreases i,
{
    if i <= 0 {
        b
    } else {
        let prev = spec_push_ingots_prefix(b, ingots, name, i - 1);
        if ingots[i - 1].0 == name {
            spec_push(
                prev,
                NameRes {
                    kind: NameResKind::Scope(ingots[i - 1].1),
                    domain: NameDomain::spec_type(),
                    derivation: NameDerivation::External,
                },
            )
        } else {
            prev
        }
    }
}

/// The bucket after the first `i` builtin entries were checked against the
/// query name: a matching entry pushes the primitive with the `Prim`
/// derivation in the type domain.
pub open spec fn spec_push_prims_prefix(
    b: BucketView,
    prims: Seq<(IdentId, PrimTy)>,
    name: IdentId,
    i: int,
) -> BucketView
    decreases i,
{
    if i <= 0 {
        b
    } else {
        let prev = spec_push_prims_prefix(b, prims, name, i - 1);
        if prims[i - 1].0 == name {
            spec_push(
                prev,
                NameRes {
                    kind: NameResKind::Prim(prims[i - 1].1),
                    domain: NameDomain::spec_type(),
                    derivation: NameDerivation::Prim,
                },
            )
        } else {
            prev
        }
    }
}

/// What one name query resolves to, tier by tier: the local edges, the named
/// imports, the glob imports (where allowed), the lexical parent (with every
/// inherited derivation wrapped one `Lex` level deeper, and with external
/// fallback disabled in the parent), and, where allowed, the external ingots
/// and the builtin types.
pub open spec fn spec_resolve(
    graph: ScopeGraph,
    importer: Importer,
    env: ExternalEnv,
    q: EarlyNameQueryId,
) -> BucketView
    decreases q.scope.0,
{
    if !graph.holds(q.scope) {
        BucketView::empty()
    } else {
        let st = spec_local_prefix(graph, q, graph.spec_scope(q.scope).edges@.len() as int);
        let b1 = st.bucket;
        let b2 = match importer.spec_named_bucket(q.scope, q.name) {
            Some(ib) => spec_merge(b1, ib),
            None => b1,
        };
        let globs = importer.spec_glob_reses(q.scope, q.name);
        let b3 = if q.directive.allow_glob {
            spec_push_prefix(b2, globs, globs.len() as int)
        } else {
            b2
        };
        let b4 = match st.parent {
            Some(p) => if p.0 < q.scope.0 {
                let sub = spec_resolve(
                    graph,
                    importer,
                    env,
                    EarlyNameQueryId {
                        name: q.name,
                        scope: p,
                        directive: QueryDirective { allow_external: false, ..q.directive },
                    },
                );
                spec_merge(b3, spec_set_lexed(sub))
            } else {
                b3
            },
            None => b3,
        };
        if !q.directive.allow_external {
            b4
        } else {
            let b5 = spec_push_ingots_prefix(
                b4,
                env.external_ingots@,
                q.name,
                env.external_ingots@.len() as int,
            );
            spec_push_prims_prefix(b5, env.prims@, q.name, env.prims@.len() as int)
        }
    }
}

/// The name resolver: borrows the scope graph, the importer's tables and the
/// external catalog for the duration of one pass, and owns nothing.
pub struct NameResolver<'a> {
    pub graph: &'a ScopeGraph,
    pub importer: &'a Importer,
    pub env: &'a ExternalEnv,
    pub vis: &'a VisibilityTable,
}

impl<'a> NameResolver<'a> {
    /// Whether the resolver's inputs are well formed.
    pub open spec fn wf(self) -> bool {
        self.graph.wf()
    }

    pub fn new(
        graph: &'a ScopeGraph,
        importer: &'a Importer,
        env: &'a ExternalEnv,
        vis: &'a VisibilityTable,
    ) -> (r: NameResolver<'a>)
        ensures
            r.graph == graph,
            r.importer == importer,
            r.env == env,
            r.vis == vis,
    {
        NameResolver { graph, importer, env, vis }
    }

    /// Evaluates one name query: the returned bucket is exactly what the
    /// tiered resolution of [`spec_resolve`] prescribes.
    pub fn resolve_query(&self, query: &EarlyNameQueryId) -> (r: NameResBucket)
        requires
            self.wf(),
            self.graph.holds(query.scope),
        ensures
            r@ == spec_resolve(*self.graph, *self.importer, *self.env, *query),
        decreases query.scope.0,
    {
        let graph = self.graph;
        proof {
            assert(graph.scope_wf(query.scope.0 as int));
        }

        // Tier 1: the local edges of the query's scope.
        let mut bucket = NameResBucket::new();
        let mut found: Vec<ScopeId> = Vec::new();
        let mut parent: Option<ScopeId> = None;
        let scope_node = graph.scope(query.scope);
        let edge_count = scope_node.edges.len();
        let mut i: usize = 0;
        while i < edge_count
            invariant
                self.wf(),
                graph == self.graph,
                self.graph.holds(query.scope),
                *scope_node == self.graph.spec_scope(query.scope),
                edge_count == scope_node.edges@.len(),
                0 <= i <= edge_count,
                spec_local_prefix(*self.graph, *query, i as int) == (LocalTierState {
                    bucket: bucket@,
                    found: found@,
                    parent,
                }),
                parent matches Some(p) ==> p.0 < query.scope.0,
            decreases edge_count - i,
        {
            let edge = scope_node.edges[i];
            proof {
                assert(graph.scope_wf(query.scope.0 as int));
            }
            match edge.kind.propagate(&graph.special, query.name, query.directive.allow_lex) {
                PropagationResult::Terminated => {
                    if !contains_scope(&found, edge.dest) {
                        let res = NameRes::new_from_scope(
                            edge.dest,
                            NameDomain::from_scope(graph, edge.dest),
                            NameDerivation::Def,
                        );
                        bucket.push(&res);
                        found.push(edge.dest);
                    }
                },
                PropagationResult::Continuation => {
                    proof {
                        assert(edge == graph.spec_scope(query.scope).edges@[i as int]);
                        assert(edge.kind is Lex);
                        assert((edge.dest.0 as int) < query.scope.0 as int);
                    }
                    parent = Some(edge.dest);
                },
                PropagationResult::UnPropagated => {},
            }
            i = i + 1;
        }

        // Tier 2: the named imports of the scope.
        match self.importer.named_bucket_for(query.scope, query.name) {
            Some(imported) => {
                bucket.merge(imported);
            },
            None => {},
        }

        // Tier 3: the glob imports, where the directive allows them.
        if query.directive.allow_glob {
            let globs = self.glob_reses_for(query.scope, query.name);
            let ghost glob_seq = self.importer.spec_glob_reses(query.scope, query.name);
            let ghost b2 = bucket@;
            let mut g: usize = 0;
            while g < globs.len()
                invariant
                    globs@ == glob_seq,
                    0 <= g <= globs@.len(),
                    bucket@ == spec_push_prefix(b2, glob_seq, g as int),
                decreases globs@.len() - g,
            {
                bucket.push(&globs[g]);
                g = g + 1;
            }
        }

        // Tier 4: the lexical parent, with external fallback disabled there
        // and every inherited derivation wrapped one level deeper.
        match parent {
            Some(p) => {
                proof {
                    assert(graph.scope_wf(query.scope.0 as int));
                }
                let directive = query.directive.disallow_external();
                let parent_query = EarlyNameQueryId::new(query.name, p, directive);
                let mut resolved = self.resolve_query(&parent_query);
                resolved.set_lexed_derivation();
                bucket.merge(&resolved);
            },
            None => {},
        }

        if !query.directive.allow_external {
            return bucket;
        }

        // Tier 5: the external ingots.
        let ingots = &self.env.external_ingots;
        let ghost b4 = bucket@;
        let mut k: usize = 0;
        while k < ingots.len()
            invariant
                ingots == self.env.external_ingots,
                0 <= k <= ingots@.len(),
                bucket@ == spec_push_ingots_prefix(b4, ingots@, query.name, k as int),
            decreases ingots@.len() - k,
        {
            let (name, root) = ingots[k];
            if name == query.name {
                let res = NameRes {
                    kind: NameResKind::Scope(root),
                    domain: NameDomain::type_dom(),
                    derivation: NameDerivation::External,
                };
                bucket.push(&res);
            }
            k = k + 1;
        }

        // Tier 6: the builtin types.
        let prims = &self.env.prims;
        let ghost b5 = bucket@;
        let mut m: usize = 0;
        while m < prims.len()
            invariant
                prims == self.env.prims,
                0 <= m <= prims@.len(),
                bucket@ == spec_push_prims_prefix(b5, prims@, query.name, m as int),
            decreases prims@.len() - m,
        {
            let (name, prim) = prims[m];
            if name == query.name {
                let res = NameRes::new_prim(prim);
                bucket.push(&res);
            }
            m = m + 1;
        }

        bucket
    }

    /// The glob-derived resolutions for `name` in `scope`, flattened across
    /// `use` sites in table order.
    fn glob_reses_for(&self, scope: ScopeId, name: IdentId) -> (r: Vec<NameRes>)
        ensures
            r@ == self.importer.spec_glob_reses(scope, name),
    {
        let mut out: Vec<NameRes> = Vec::new();
        let table = find_glob_scope(&self.importer.globs, scope, 0);
        let ghost lists = self.importer.spec_glob_lists(scope, name);
        match table {
            None => {
                proof {
                    assert(flatten_prefix(lists, lists.len() as int) =~= Seq::<NameRes>::empty());
                }
            },
            Some(t) => {
                let mut e: usize = 0;
                while e < t.entries.len()
                    invariant
                        lists == spec_glob_lists_of_table(t.entries@, name),
                        lists == self.importer.spec_glob_lists(scope, name),
                        0 <= e <= t.entries@.len(),
                        lists.len() == t.entries@.len(),
                        out@ == flatten_prefix(lists, e as int),
                    decreases t.entries@.len() - e,
                {
                    match find_glob_ident(&t.entries[e].1, name, 0) {
                        None => {
                            proof {
                                assert(lists[e as int] =~= Seq::<NameRes>::empty());
                                assert(out@ =~= flatten_prefix(lists, e as int + 1));
                            }
                        },
                        Some(list) => {
                            let mut x: usize = 0;
                            while x < list.len()
                                invariant
                                    0 <= x <= list@.len(),
                                    out@ == flatten_prefix(lists, e as int) + list@.subrange(
                                        0,
                                        x as int,
                                    ),
                                decreases list@.len() - x,
                            {
                                out.push(list[x].deep_clone());
                                x = x + 1;
                            }
                            proof {
                                assert(out@ =~= flatten_prefix(lists, e as int + 1));
                            }
                        },
                    }
                    e = e + 1;
                }
            },
        }
        out
    }
}

/// First-match search of the glob tables, mirroring [`first_glob_scope_from`].
fn find_glob_scope(globs: &Vec<(ScopeId, GlobImportTable)>, scope: ScopeId, i: usize) -> (r: Option<
    &GlobImportTable,
>)
    requires
        i <= globs@.len(),
    ensures
        match r {
            Some(t) => exists|k: int|
                first_glob_scope_from(globs@, scope, i as int) == Some(k) && *t == globs@[k].1,
            None => first_glob_scope_from(globs@, scope, i as int) is None,
        },
    decreases globs@.len() - i,
{
    if i == globs.len() {
        None
    } else if globs[i].0 == scope {
        Some(&globs[i].1)
    } else {
        find_glob_scope(globs, scope, i + 1)
    }
}

/// First-match search of one `use` site's name map, mirroring
/// [`first_glob_ident_from`].
fn find_glob_ident(table: &Vec<(IdentId, Vec<NameRes>)>, name: IdentId, j: usize) -> (r: Option<
    &Vec<NameRes>,
>)
    requires
        j <= table@.len(),
    ensures
        match r {
            Some(l) => exists|k: int|
                first_glob_ident_from(table@, name, j as int) == Some(k) && *l == table@[k].1,
            None => first_glob_ident_from(table@, name, j as int) is None,
        },
    decreases table@.len() - j,
{
    if j == table.len() {
        None
    } else if table[j].0 == name {
        Some(&table[j].1)
    } else {
        find_glob_ident(table, name, j + 1)
    }
}

/// Whether `v` holds `s`.
fn contains_scope(v: &Vec<ScopeId>, s: ScopeId) -> (r: bool)
    ensures
        r == v@.contains(s),
{
    let mut i: usize = 0;
    let mut hit: bool = false;
    while i < v.len()
        invariant
            0 <= i <= v@.len(),
            hit <==> exists|k: int| 0 <= k < i && v@[k] == s,
        decreases v@.len() - i,
    {
        if v[i] == s {
            hit = true;
        }
        i = i + 1;
    }
    proof {
        if hit {
            assert(v@.contains(s));
        }
        if v@.contains(s) {
            let k = choose|k: int| 0 <= k < v@.len() && v@[k] == s;
            assert(0 <= k < v@.len() && v@[k] == s);
        }
    }
    hit
}


/// The local tier changes nothing when no edge of the query's scope
/// terminates the query and lexical propagation is off.
proof fn lemma_local_prefix_identity(graph: ScopeGraph, q: EarlyNameQueryId, i: int)
    requires
        graph.holds(q.scope),
        !q.directive.allow_lex,
        forall|j: int|
            0 <= j < graph.spec_scope(q.scope).edges@.len() ==> spec_propagate(
                (#[trigger] graph.spec_scope(q.scope).edges@[j]).kind,
                graph.special,
                q.name,
                q.directive.allow_lex,
            ) != PropagationResult::Terminated,
        0 <= i <= graph.spec_scope(q.scope).edges@.len(),
    ensures
        spec_local_prefix(graph, q, i) == (LocalTierState {
            bucket: BucketView::empty(),
            found: Seq::<ScopeId>::empty(),
            parent: None,
        }),
    decreases i,
{
    if i > 0 {
        lemma_local_prefix_identity(graph, q, i - 1);
        let edge = graph.spec_scope(q.scope).edges@[i - 1];
        match edge.kind {
            crate::scope_graph::EdgeKind::Lex => {
                assert(spec_propagate(edge.kind, graph.special, q.name, q.directive.allow_lex)
                    == PropagationResult::UnPropagated);
            },
            _ => {},
        }
    }
}

/// The external-ingot tier changes nothing when no ingot bears the query
/// name.
proof fn lemma_push_ingots_identity(
    b: BucketView,
    ingots: Seq<(IdentId, ScopeId)>,
    name: IdentId,
    i: int,
)
    requires
        forall|k: int| 0 <= k < ingots.len() ==> (#[trigger] ingots[k]).0 != name,
        i <= ingots.len(),
    ensures
        spec_push_ingots_prefix(b, ingots, name, i) == b,
    decreases i,
{
    if i > 0 {
        lemma_push_ingots_identity(b, ingots, name, i - 1);
    }
}

/// The builtin tier changes nothing when no builtin bears the query name.
proof fn lemma_push_prims_identity(
    b: BucketView,
    prims: Seq<(IdentId, PrimTy)>,
    name: IdentId,
    i: int,
)
    requires
        forall|k: int| 0 <= k < prims.len() ==> (#[trigger] prims[k]).0 != name,
        i <= prims.len(),
    ensures
        spec_push_prims_prefix(b, prims, name, i) == b,
    decreases i,
{
    if i > 0 {
        lemma_push_prims_identity(b, prims, name, i - 1);
    }
}

/// A query with lexical lookup disallowed, on an identifier that has no
/// local definition, no import, no external ingot and no builtin of that
/// name, resolves to nothing: every domain answers `NotFound`, even where
/// the identifier exists in an enclosing scope.
pub proof fn lemma_disallow_lex_yields_not_found(
    graph: ScopeGraph,
    importer: Importer,
    env: ExternalEnv,
    q: EarlyNameQueryId,
)
    requires
        graph.holds(q.scope),
        !q.directive.allow_lex,
        forall|j: int|
            0 <= j < graph.spec_scope(q.scope).edges@.len() ==> spec_propagate(
                (#[trigger] graph.spec_scope(q.scope).edges@[j]).kind,
                graph.special,
                q.name,
                q.directive.allow_lex,
            ) != PropagationResult::Terminated,
        importer.spec_named_bucket(q.scope, q.name) is None,
        importer.spec_glob_reses(q.scope, q.name).len() == 0,
        forall|k: int|
            0 <= k < env.external_ingots@.len() ==> (#[trigger] env.external_ingots@[k]).0
                != q.name,
        forall|k: int| 0 <= k < env.prims@.len() ==> (#[trigger] env.prims@[k]).0 != q.name,
    ensures
        spec_resolve(graph, importer, env, q) == BucketView::empty(),
        forall|d: NameDomain|
            #[trigger] crate::bucket::spec_pick(spec_resolve(graph, importer, env, q), d) == Err::<
                NameRes,
                crate::bucket::ResErrorView,
            >(crate::bucket::ResErrorView::NotFound),
{
    lemma_local_prefix_identity(graph, q, graph.spec_scope(q.scope).edges@.len() as int);
    lemma_push_ingots_identity(
        BucketView::empty(),
        env.external_ingots@,
        q.name,
        env.external_ingots@.len() as int,
    );
    lemma_push_prims_identity(BucketView::empty(), env.prims@, q.name, env.prims@.len() as int);
}


/// The working state of one identifier's glob collection: the resolutions
/// collected so far (never removed, only appended), the resolution targets
/// already claimed in earlier tiers or entries, and the domains the current
/// tier has filled.
pub struct CollectState {
    pub list: Seq<NameRes>,
    pub kinds: Seq<NameResKind>,
    pub dom: NameDomain,
}

impl CollectState {
    /// The state before any tier ran.
    pub open spec fn init() -> CollectState {
        CollectState {
            list: Seq::empty(),
            kinds: Seq::empty(),
            dom: NameDomain::spec_invalid(),
        }
    }
}

/// One step of the edge tier of a glob collection: a glob-collectable edge
/// whose destination bears the collected identifier claims its target, and
/// contributes a definitional resolution when that target is visible.
pub open spec fn spec_collect_edge_step(
    graph: ScopeGraph,
    vis: VisibilityTable,
    use_scope: ScopeId,
    name: IdentId,
    st: CollectState,
    edge: Edge,
) -> CollectState {
    if spec_propagate_glob(edge.kind) is Terminated && graph.spec_scope(edge.dest).name == Some(
        name,
    ) {
        let kind = NameResKind::Scope(edge.dest);
        if st.kinds.contains(kind) {
            st
        } else {
            let res = NameRes {
                kind,
                domain: spec_domain_of_scope(graph, edge.dest),
                derivation: NameDerivation::Def,
            };
            if spec_is_visible(res, vis, use_scope) {
                CollectState {
                    list: st.list.push(res),
                    kinds: st.kinds.push(kind),
                    dom: st.dom.spec_union(res.domain),
                }
            } else {
                CollectState { kinds: st.kinds.push(kind), ..st }
            }
        }
    } else {
        st
    }
}

/// The edge tier after the first `i` edges of `target`.
pub open spec fn spec_collect_edges_prefix(
    graph: ScopeGraph,
    vis: VisibilityTable,
    target: ScopeId,
    use_scope: ScopeId,
    name: IdentId,
    i: int,
) -> CollectState
    decreases i,
{
    if i <= 0 {
        CollectState::init()
    } else {
        spec_collect_edge_step(
            graph,
            vis,
            use_scope,
            name,
            spec_collect_edges_prefix(graph, vis, target, use_scope, name, i - 1),
            graph.spec_scope(target).edges@[i - 1],
        )
    }
}

/// One step of the named-import tier: an invisible candidate is dropped
/// without claiming anything; a candidate whose domain the edge tier
/// (`local_dom`) already filled is blocked; a claimed target is a duplicate;
/// anything else is appended.
pub open spec fn spec_collect_named_step(
    vis: VisibilityTable,
    use_scope: ScopeId,
    local_dom: NameDomain,
    st: CollectState,
    res: NameRes,
) -> CollectState {
    if !spec_is_visible(res, vis, use_scope) {
        st
    } else if local_dom.spec_intersects(res.domain) {
        st
    } else if st.kinds.contains(res.kind) {
        st
    } else {
        CollectState {
            list: st.list.push(res),
            kinds: st.kinds.push(res.kind),
            dom: st.dom.spec_union(res.domain),
        }
    }
}

/// The named-import tier after the first `i` of the bucket's live
/// resolutions.
pub open spec fn spec_collect_named_prefix(
    vis: VisibilityTable,
    use_scope: ScopeId,
    local_dom: NameDomain,
    init: CollectState,
    live: Seq<NameRes>,
    i: int,
) -> CollectState
    decreases i,
{
    if i <= 0 {
        init
    } else {
        spec_collect_named_step(
            vis,
            use_scope,
            local_dom,
            spec_collect_named_prefix(vis, use_scope, local_dom, init, live, i - 1),
            live[i - 1],
        )
    }
}

/// One step of the glob tier: like the named tier, but blocked by the
/// domains filled after the named tier (`named_dom`), and filling no domain
/// itself — several glob sources may stack entries for one name, deferring
/// ambiguity to the point of use.
pub open spec fn spec_collect_glob_step(
    vis: VisibilityTable,
    use_scope: ScopeId,
    named_dom: NameDomain,
    st: CollectState,
    res: NameRes,
) -> CollectState {
    if !spec_is_visible(res, vis, use_scope) {
        st
    } else if named_dom.spec_intersects(res.domain) {
        st
    } else if st.kinds.contains(res.kind) {
        st
    } else {
        CollectState { list: st.list.push(res), kinds: st.kinds.push(res.kind), dom: st.dom }
    }
}

/// The glob tier after the first `i` of the flattened glob resolutions.
pub open spec fn spec_collect_glob_prefix(
    vis: VisibilityTable,
    use_scope: ScopeId,
    named_dom: NameDomain,
    init: CollectState,
    flat: Seq<NameRes>,
    i: int,
) -> CollectState
    decreases i,
{
    if i <= 0 {
        init
    } else {
        spec_collect_glob_step(
            vis,
            use_scope,
            named_dom,
            spec_collect_glob_prefix(vis, use_scope, named_dom, init, flat, i - 1),
            flat[i - 1],
        )
    }
}

/// The live resolutions of an optional named-import bucket.
pub open spec fn named_live_of(b: Option<BucketView>) -> Seq<NameRes> {
    match b {
        Some(bv) => crate::bucket::live_seq(bv),
        None => Seq::empty(),
    }
}

/// Everything a glob import of `target` would bring in under `name`, given
/// the identifier's own projections of the import tables: the edge tier,
/// then the named-import tier, then (unless a pending named import of the
/// same identifier shadows it) the glob tier. No shadowing is applied across
/// tiers beyond the per-tier domain guards; entries are only appended.
pub open spec fn spec_collect_name(
    graph: ScopeGraph,
    vis: VisibilityTable,
    target: ScopeId,
    use_scope: ScopeId,
    named: Option<BucketView>,
    glob_flat: Seq<NameRes>,
    skip_glob: bool,
    name: IdentId,
) -> Seq<NameRes> {
    let a = spec_collect_edges_prefix(
        graph,
        vis,
        target,
        use_scope,
        name,
        graph.spec_scope(target).edges@.len() as int,
    );
    let live = named_live_of(named);
    let b = spec_collect_named_prefix(vis, use_scope, a.dom, a, live, live.len() as int);
    if skip_glob {
        b.list
    } else {
        spec_collect_glob_prefix(vis, use_scope, b.dom, b, glob_flat, glob_flat.len() as int).list
    }
}

impl<'a> NameResolver<'a> {
    /// What `collect_all_resolutions_for_glob` gathers for one identifier.
    pub open spec fn spec_collect_for(
        self,
        target: ScopeId,
        use_scope: ScopeId,
        unresolved: Seq<IdentId>,
        name: IdentId,
    ) -> Seq<NameRes> {
        spec_collect_name(
            *self.graph,
            *self.vis,
            target,
            use_scope,
            self.importer.spec_named_bucket(target, name),
            self.importer.spec_glob_reses(target, name),
            unresolved.contains(name),
            name,
        )
    }

    /// Collects what a glob import of `target` brings in under one
    /// identifier; `skip_glob` tells whether a pending named import of this
    /// identifier shadows the glob tier.
    fn collect_for_name(
        &self,
        target: ScopeId,
        use_scope: ScopeId,
        skip_glob: bool,
        name: IdentId,
    ) -> (r: Vec<NameRes>)
        requires
            self.wf(),
            self.graph.holds(target),
        ensures
            r@ == spec_collect_name(
                *self.graph,
                *self.vis,
                target,
                use_scope,
                self.importer.spec_named_bucket(target, name),
                self.importer.spec_glob_reses(target, name),
                skip_glob,
                name,
            ),
    {
        let graph = self.graph;
        proof {
            assert(graph.scope_wf(target.0 as int));
        }
        let mut list: Vec<NameRes> = Vec::new();
        let mut kinds: Vec<NameResKind> = Vec::new();
        let mut dom: NameDomain = NameDomain::invalid();

        // Edge tier.
        let node = graph.scope(target);
        let edge_count = node.edges.len();
        let mut i: usize = 0;
        while i < edge_count
            invariant
                self.wf(),
                graph == self.graph,
                self.graph.holds(target),
                *node == self.graph.spec_scope(target),
                edge_count == node.edges@.len(),
                0 <= i <= edge_count,
                spec_collect_edges_prefix(*self.graph, *self.vis, target, use_scope, name, i as int)
                    == (CollectState { list: list@, kinds: kinds@, dom }),
            decreases edge_count - i,
        {
            let edge = node.edges[i];
            proof {
                assert(graph.scope_wf(target.0 as int));
            }
            let pr = edge.kind.propagate_glob();
            if matches!(pr, PropagationResult::Terminated) {
                let dest_node = graph.scope(edge.dest);
                if let Some(n) = dest_node.name {
                    if n == name {
                        let kind = NameResKind::Scope(edge.dest);
                        if !contains_kind(&kinds, kind) {
                            let res = NameRes::new_from_scope(
                                edge.dest,
                                NameDomain::from_scope(graph, edge.dest),
                                NameDerivation::Def,
                            );
                            if res.is_visible(self.vis, use_scope) {
                                dom = dom.union(res.domain);
                                list.push(res);
                            }
                            kinds.push(kind);
                        }
                    }
                }
            }
            i = i + 1;
        }

        // Named-import tier: the edge tier's domains block it, but an
        // invisible candidate claims nothing.
        let ghost state_a = CollectState { list: list@, kinds: kinds@, dom };
        let local_dom = dom;
        match self.importer.named_bucket_for(target, name) {
            Some(imported) => {
                let live = imported.iter_ok();
                let ghost live_seq = named_live_of(Some(imported@));
                let mut j: usize = 0;
                while j < live.len()
                    invariant
                        live@.map_values(|x: &NameRes| *x) == live_seq,
                        0 <= j <= live@.len(),
                        spec_collect_named_prefix(
                            *self.vis,
                            use_scope,
                            local_dom,
                            state_a,
                            live_seq,
                            j as int,
                        ) == (CollectState { list: list@, kinds: kinds@, dom }),
                    decreases live@.len() - j,
                {
                    let res: &NameRes = live[j];
                    proof {
                        assert(live_seq[j as int] == live@.map_values(|x: &NameRes| *x)[j as int]);
                    }
                    if res.is_visible(self.vis, use_scope) && !local_dom.intersects(res.domain)
                        && !contains_kind(&kinds, res.kind) {
                        dom = dom.union(res.domain);
                        kinds.push(res.kind);
                        list.push(res.deep_clone());
                    }
                    j = j + 1;
                }
            },
            None => {},
        }

        // Glob tier, unless a pending named import shadows it: blocked by
        // the domains filled so far, claiming targets but no domains.
        if !skip_glob {
            let ghost state_b = CollectState { list: list@, kinds: kinds@, dom };
            let named_dom = dom;
            let flat = self.glob_reses_for(target, name);
            let ghost flat_seq = self.importer.spec_glob_reses(target, name);
            let mut g: usize = 0;
            while g < flat.len()
                invariant
                    flat@ == flat_seq,
                    0 <= g <= flat@.len(),
                    spec_collect_glob_prefix(
                        *self.vis,
                        use_scope,
                        named_dom,
                        state_b,
                        flat_seq,
                        g as int,
                    ) == (CollectState { list: list@, kinds: kinds@, dom }),
                decreases flat@.len() - g,
            {
                let res = &flat[g];
                if res.is_visible(self.vis, use_scope) && !named_dom.intersects(res.domain)
                    && !contains_kind(&kinds, res.kind) {
                    kinds.push(res.kind);
                    list.push(res.deep_clone());
                }
                g = g + 1;
            }
        }
        list
    }
}

/// Whether `v` holds `k`.
fn contains_kind(v: &Vec<NameResKind>, k: NameResKind) -> (r: bool)
    ensures
        r == v@.contains(k),
{
    let mut i: usize = 0;
    let mut hit: bool = false;
    while i < v.len()
        invariant
            0 <= i <= v@.len(),
            hit <==> exists|j: int| 0 <= j < i && v@[j] == k,
        decreases v@.len() - i,
    {
        if v[i] == k {
            hit = true;
        }
        i = i + 1;
    }
    hit
}

/// Whether `v` holds `n`.
fn contains_ident(v: &Vec<IdentId>, n: IdentId) -> (r: bool)
    ensures
        r == v@.contains(n),
{
    let mut i: usize = 0;
    let mut hit: bool = false;
    while i < v.len()
        invariant
            0 <= i <= v@.len(),
            hit <==> exists|j: int| 0 <= j < i && v@[j] == n,
        decreases v@.len() - i,
    {
        if v[i] == n {
            hit = true;
        }
        i = i + 1;
    }
    hit
}


/// Whether a sequence of identifiers has no duplicates.
pub open spec fn unique_idents(s: Seq<IdentId>) -> bool {
    forall|i: int, j: int| 0 <= i < j < s.len() ==> s[i] != s[j]
}

/// Whether the identifier that edge `j` of `target` would contribute to a
/// glob collection is recorded in `s`.
pub open spec fn edge_name_recorded(
    graph: ScopeGraph,
    target: ScopeId,
    j: int,
    s: Seq<IdentId>,
) -> bool {
    let e = graph.spec_scope(target).edges@[j];
    spec_propagate_glob(e.kind) is Terminated && graph.spec_scope(e.dest).name is Some
        ==> s.contains(graph.spec_scope(e.dest).name->0)
}

/// Whether every key of `target`'s named-import table is recorded in `s`.
pub open spec fn named_keys_recorded(imp: Importer, target: ScopeId, s: Seq<IdentId>) -> bool {
    match first_named_scope_from(imp.named@, target, 0) {
        None => true,
        Some(i) => forall|k: int|
            0 <= k < imp.named@[i].1@.len() ==> s.contains((#[trigger] imp.named@[i].1@[k]).0),
    }
}

/// Whether every key of `target`'s glob tables is recorded in `s`.
pub open spec fn glob_keys_recorded(imp: Importer, target: ScopeId, s: Seq<IdentId>) -> bool {
    match first_glob_scope_from(imp.globs@, target, 0) {
        None => true,
        Some(i) => forall|e: int, k: int|
            0 <= e < imp.globs@[i].1.entries@.len() && 0 <= k < imp.globs@[i].1.entries@[e].1@.len()
                ==> s.contains((#[trigger] imp.globs@[i].1.entries@[e].1@[k]).0),
    }
}

/// Appends `n` unless it is already there: membership otherwise unchanged,
/// uniqueness kept.
fn push_unique(v: &mut Vec<IdentId>, n: IdentId)
    ensures
        forall|m: IdentId| final(v)@.contains(m) <==> old(v)@.contains(m) || m == n,
        unique_idents(old(v)@) ==> unique_idents(final(v)@),
{
    if !contains_ident(v, n) {
        v.push(n);
        proof {
            assert forall|m: IdentId| v@.contains(m) <==> old(v)@.contains(m) || m == n by {
                if v@.contains(m) {
                    let k = choose|k: int| 0 <= k < v@.len() && v@[k] == m;
                    if k < old(v)@.len() {
                        assert(old(v)@[k] == m);
                    }
                }
                if old(v)@.contains(m) {
                    let k = choose|k: int| 0 <= k < old(v)@.len() && old(v)@[k] == m;
                    assert(v@[k] == m);
                }
                if m == n {
                    assert(v@[v@.len() - 1] == n);
                }
            }
            if unique_idents(old(v)@) {
                assert forall|i: int, j: int| 0 <= i < j < v@.len() implies v@[i] != v@[j] by {
                    if j == v@.len() - 1 {
                        assert(old(v)@[i] == v@[i]);
                        assert(!old(v)@.contains(n));
                    }
                }
            }
        }
    }
}

/// A search that starts past every matching key finds nothing.
proof fn lemma_named_ident_absent(table: Seq<(IdentId, NameResBucket)>, name: IdentId, j: int)
    requires
        0 <= j,
        forall|k: int| j <= k < table.len() ==> (#[trigger] table[k]).0 != name,
    ensures
        first_named_ident_from(table, name, j) is None,
    decreases table.len() - j,
{
    if j < table.len() {
        lemma_named_ident_absent(table, name, j + 1);
    }
}

/// A search that starts past every matching key finds nothing.
proof fn lemma_glob_ident_absent(table: Seq<(IdentId, Vec<NameRes>)>, name: IdentId, j: int)
    requires
        0 <= j,
        forall|k: int| j <= k < table.len() ==> (#[trigger] table[k]).0 != name,
    ensures
        first_glob_ident_from(table, name, j) is None,
    decreases table.len() - j,
{
    if j < table.len() {
        lemma_glob_ident_absent(table, name, j + 1);
    }
}

/// Flattening lists that are all empty yields the empty sequence.
proof fn lemma_flatten_all_empty(lists: Seq<Seq<NameRes>>, i: int)
    requires
        i <= lists.len(),
        forall|k: int| 0 <= k < lists.len() ==> (#[trigger] lists[k]).len() == 0,
    ensures
        flatten_prefix(lists, i).len() == 0,
    decreases i,
{
    if i > 0 {
        lemma_flatten_all_empty(lists, i - 1);
    }
}

/// An identifier that no glob table of `scope` mentions has no glob-derived
/// resolutions there.
proof fn lemma_glob_reses_absent(imp: Importer, scope: ScopeId, name: IdentId)
    requires
        match first_glob_scope_from(imp.globs@, scope, 0) {
            None => true,
            Some(i) => forall|e: int, k: int|
                0 <= e < imp.globs@[i].1.entries@.len() && 0 <= k
                    < imp.globs@[i].1.entries@[e].1@.len() ==> (
                #[trigger] imp.globs@[i].1.entries@[e].1@[k]).0 != name,
        },
    ensures
        imp.spec_glob_reses(scope, name).len() == 0,
{
    match first_glob_scope_from(imp.globs@, scope, 0) {
        None => {
            assert(imp.spec_glob_lists(scope, name) =~= Seq::<Seq<NameRes>>::empty());
        },
        Some(i) => {
            let entries = imp.globs@[i].1.entries@;
            let lists = spec_glob_lists_of_table(entries, name);
            assert forall|e: int| 0 <= e < lists.len() implies (#[trigger] lists[e]).len()
                == 0 by {
                lemma_glob_ident_absent(entries[e].1@, name, 0);
            }
            lemma_flatten_all_empty(lists, lists.len() as int);
        },
    }
}

/// The edge tier of a glob collection contributes nothing for an identifier
/// that no collectable edge of `target` bears.
proof fn lemma_collect_edges_identity(
    graph: ScopeGraph,
    vis: VisibilityTable,
    target: ScopeId,
    use_scope: ScopeId,
    name: IdentId,
    i: int,
)
    requires
        graph.holds(target),
        0 <= i <= graph.spec_scope(target).edges@.len(),
        forall|j: int|
            0 <= j < graph.spec_scope(target).edges@.len() ==> !(spec_propagate_glob(
                (#[trigger] graph.spec_scope(target).edges@[j]).kind,
            ) is Terminated && graph.spec_scope(graph.spec_scope(target).edges@[j].dest).name
                == Some(name)),
    ensures
        spec_collect_edges_prefix(graph, vis, target, use_scope, name, i) == CollectState::init(),
    decreases i,
{
    if i > 0 {
        lemma_collect_edges_identity(graph, vis, target, use_scope, name, i - 1);
    }
}

/// An identifier with no collectable edge, no named import and no
/// glob-derived resolution in `target` collects nothing.
proof fn lemma_unknown_name_collects_nothing(
    graph: ScopeGraph,
    vis: VisibilityTable,
    target: ScopeId,
    use_scope: ScopeId,
    glob_flat: Seq<NameRes>,
    skip_glob: bool,
    name: IdentId,
)
    requires
        graph.holds(target),
        forall|j: int|
            0 <= j < graph.spec_scope(target).edges@.len() ==> !(spec_propagate_glob(
                (#[trigger] graph.spec_scope(target).edges@[j]).kind,
            ) is Terminated && graph.spec_scope(graph.spec_scope(target).edges@[j].dest).name
                == Some(name)),
        glob_flat.len() == 0,
    ensures
        spec_collect_name(graph, vis, target, use_scope, None, glob_flat, skip_glob, name)
            =~= Seq::<NameRes>::empty(),
{
    lemma_collect_edges_identity(
        graph,
        vis,
        target,
        use_scope,
        name,
        graph.spec_scope(target).edges@.len() as int,
    );
}

impl<'a> NameResolver<'a> {
    /// Collects every visible name a glob import of `target` would bring
    /// in, seen from `use_scope`, without applying shadowing across tiers:
    /// the result maps each identifier to the appended-only list that
    /// [`spec_collect_name`] prescribes for that identifier's own slice of
    /// the tables; identifiers that collect nothing have no entry. Names in
    /// `unresolved_named_imports` skip the glob tier: a named import takes
    /// precedence once it exists, even while still pending.
    pub fn collect_all_resolutions_for_glob(
        &self,
        target: ScopeId,
        use_scope: ScopeId,
        unresolved_named_imports: &Vec<IdentId>,
    ) -> (r: Vec<(IdentId, Vec<NameRes>)>)
        requires
            self.wf(),
            self.graph.holds(target),
        ensures
            forall|i: int, j: int|
                0 <= i < j < r@.len() ==> (#[trigger] r@[i]).0 != (#[trigger] r@[j]).0,
            forall|i: int|
                0 <= i < r@.len() ==> (#[trigger] r@[i]).1@ == self.spec_collect_for(
                    target,
                    use_scope,
                    unresolved_named_imports@,
                    r@[i].0,
                ) && r@[i].1@.len() > 0,
            forall|n: IdentId|
                #[trigger] self.spec_collect_for(target, use_scope, unresolved_named_imports@, n)
                    .len() > 0 ==> exists|i: int| 0 <= i < r@.len() && r@[i].0 == n,
    {
        let graph = self.graph;
        proof {
            assert(graph.scope_wf(target.0 as int));
        }

        // Every identifier that any tier could contribute for.
        let mut names: Vec<IdentId> = Vec::new();
        let node = graph.scope(target);
        let edge_count = node.edges.len();
        let mut i: usize = 0;
        while i < edge_count
            invariant
                self.wf(),
                graph == self.graph,
                self.graph.holds(target),
                *node == self.graph.spec_scope(target),
                edge_count == node.edges@.len(),
                0 <= i <= edge_count,
                unique_idents(names@),
                forall|j: int| 0 <= j < i ==> #[trigger] edge_name_recorded(
                    *self.graph,
                    target,
                    j,
                    names@,
                ),
            decreases edge_count - i,
        {
            let ghost names_before = names@;
            let edge = node.edges[i];
            proof {
                assert(graph.scope_wf(target.0 as int));
            }
            let pr = edge.kind.propagate_glob();
            if matches!(pr, PropagationResult::Terminated) {
                let dest_node = graph.scope(edge.dest);
                if let Some(n) = dest_node.name {
                    push_unique(&mut names, n);
                }
            }
            proof {
                assert forall|j: int| 0 <= j < i + 1 implies #[trigger] edge_name_recorded(
                    *self.graph,
                    target,
                    j,
                    names@,
                ) by {
                    if j < i {
                        assert(edge_name_recorded(*self.graph, target, j, names_before));
                        assert forall|m: IdentId| names_before.contains(m) implies names@.contains(
                            m,
                        ) by {}
                    }
                }
            }
            i = i + 1;
        }

        match find_named_scope(&self.importer.named, target, 0) {
            Some(table) => {
                let mut k: usize = 0;
                while k < table.len()
                    invariant
                        0 <= k <= table@.len(),
                        unique_idents(names@),
                        forall|j: int| 0 <= j < edge_count ==> #[trigger] edge_name_recorded(
                            *self.graph,
                            target,
                            j,
                            names@,
                        ),
                        edge_count == self.graph.spec_scope(target).edges@.len(),
                        exists|ti: int|
                            first_named_scope_from(self.importer.named@, target, 0) == Some(ti)
                                && *table == self.importer.named@[ti].1,
                        forall|kk: int| 0 <= kk < k ==> names@.contains(
                            (#[trigger] table@[kk]).0,
                        ),
                    decreases table@.len() - k,
                {
                    let ghost names_before = names@;
                    push_unique(&mut names, table[k].0);
                    proof {
                        assert forall|m: IdentId| names_before.contains(m) implies names@.contains(
                            m,
                        ) by {}
                        assert forall|j: int| 0 <= j < edge_count implies
                            #[trigger] edge_name_recorded(*self.graph, target, j, names@) by {
                            assert(edge_name_recorded(*self.graph, target, j, names_before));
                        }
                    }
                    k = k + 1;
                }
            },
            None => {},
        }

        match find_glob_scope(&self.importer.globs, target, 0) {
            Some(t) => {
                let mut e: usize = 0;
                while e < t.entries.len()
                    invariant
                        0 <= e <= t.entries@.len(),
                        unique_idents(names@),
                        forall|j: int| 0 <= j < edge_count ==> #[trigger] edge_name_recorded(
                            *self.graph,
                            target,
                            j,
                            names@,
                        ),
                        edge_count == self.graph.spec_scope(target).edges@.len(),
                        named_keys_recorded(*self.importer, target, names@),
                        exists|gi: int|
                            first_glob_scope_from(self.importer.globs@, target, 0) == Some(gi)
                                && *t == self.importer.globs@[gi].1,
                        forall|ee: int, kk: int|
                            0 <= ee < e && 0 <= kk < t.entries@[ee].1@.len() ==> names@.contains(
                                (#[trigger] t.entries@[ee].1@[kk]).0,
                            ),
                    decreases t.entries@.len() - e,
                {
                    let entry = &t.entries[e].1;
                    let mut k: usize = 0;
                    while k < entry.len()
                        invariant
                            0 <= k <= entry@.len(),
                            *entry == t.entries@[e as int].1,
                            0 <= e < t.entries@.len(),
                            unique_idents(names@),
                            forall|j: int| 0 <= j < edge_count ==> #[trigger] edge_name_recorded(
                                *self.graph,
                                target,
                                j,
                                names@,
                            ),
                            edge_count == self.graph.spec_scope(target).edges@.len(),
                            named_keys_recorded(*self.importer, target, names@),
                            forall|ee: int, kk: int|
                                0 <= ee < e && 0 <= kk < t.entries@[ee].1@.len() ==> names@
                                    .contains((#[trigger] t.entries@[ee].1@[kk]).0),
                            forall|kk: int| 0 <= kk < k ==> names@.contains(
                                (#[trigger] entry@[kk]).0,
                            ),
                        decreases entry@.len() - k,
                    {
                        let ghost names_before = names@;
                        push_unique(&mut names, entry[k].0);
                        proof {
                            assert forall|m: IdentId| names_before.contains(m) implies names@
                                .contains(m) by {}
                            assert forall|j: int| 0 <= j < edge_count implies
                                #[trigger] edge_name_recorded(*self.graph, target, j, names@) by {
                                assert(edge_name_recorded(*self.graph, target, j, names_before));
                            }
                            if named_keys_recorded(*self.importer, target, names_before) {
                                assert(named_keys_recorded(*self.importer, target, names@));
                            }
                        }
                        k = k + 1;
                    }
                    e = e + 1;
                }
            },
            None => {},
        }

        // One pass per candidate identifier; empty collections get no entry.
        let mut out: Vec<(IdentId, Vec<NameRes>)> = Vec::new();
        let mut c: usize = 0;
        while c < names.len()
            invariant
                self.wf(),
                self.graph.holds(target),
                unique_idents(names@),
                0 <= c <= names@.len(),
                forall|i: int|
                    0 <= i < out@.len() ==> exists|cc: int|
                        0 <= cc < c && names@[cc] == (#[trigger] out@[i]).0,
                forall|i: int, j: int|
                    0 <= i < j < out@.len() ==> (#[trigger] out@[i]).0 != (#[trigger] out@[j]).0,
                forall|i: int|
                    0 <= i < out@.len() ==> (#[trigger] out@[i]).1@ == self.spec_collect_for(
                        target,
                        use_scope,
                        unresolved_named_imports@,
                        out@[i].0,
                    ) && out@[i].1@.len() > 0,
                forall|cc: int|
                    0 <= cc < c && #[trigger] self.spec_collect_for(
                        target,
                        use_scope,
                        unresolved_named_imports@,
                        names@[cc],
                    ).len() > 0 ==> exists|i: int| 0 <= i < out@.len() && out@[i].0 == names@[cc],
            decreases names@.len() - c,
        {
            let name = names[c];
            let skip_glob = contains_ident(unresolved_named_imports, name);
            let collected = self.collect_for_name(target, use_scope, skip_glob, name);
            let ghost out_before = out@;
            let ghost spec_list = self.spec_collect_for(
                target,
                use_scope,
                unresolved_named_imports@,
                name,
            );
            proof {
                assert(collected@ == spec_list);
            }
            if collected.len() > 0 {
                proof {
                    assert forall|i: int| 0 <= i < out@.len() implies (#[trigger] out@[i]).0
                        != name by {
                        let cc = choose|cc: int| 0 <= cc < c && names@[cc] == out@[i].0;
                        assert(names@[cc] != names@[c as int]);
                    }
                }
                out.push((name, collected));
                proof {
                    assert(out@[out@.len() - 1].0 == name);
                    assert forall|i: int| 0 <= i < out_before.len() implies out@[i]
                        == out_before[i] by {}
                }
            }
            proof {
                assert forall|cc: int|
                    0 <= cc < c + 1 && #[trigger] self.spec_collect_for(
                        target,
                        use_scope,
                        unresolved_named_imports@,
                        names@[cc],
                    ).len() > 0 implies exists|i: int|
                    0 <= i < out@.len() && out@[i].0 == names@[cc] by {
                    if cc == c {
                        assert(out@[out@.len() - 1].0 == names@[cc]);
                    } else {
                        let i = choose|i: int|
                            0 <= i < out_before.len() && out_before[i].0 == names@[cc];
                        assert(out@[i].0 == names@[cc]);
                    }
                }
            }
            c = c + 1;
        }

        proof {
            assert forall|n: IdentId|
                #[trigger] self.spec_collect_for(target, use_scope, unresolved_named_imports@, n)
                    .len() > 0 implies exists|i: int| 0 <= i < out@.len() && out@[i].0 == n by {
                if names@.contains(n) {
                    let cc = choose|cc: int| 0 <= cc < names@.len() && names@[cc] == n;
                } else {
                    assert forall|j: int|
                        0 <= j < self.graph.spec_scope(target).edges@.len() implies !(
                        spec_propagate_glob(
                            (#[trigger] self.graph.spec_scope(target).edges@[j]).kind,
                        ) is Terminated && self.graph.spec_scope(
                            self.graph.spec_scope(target).edges@[j].dest,
                        ).name == Some(n)) by {
                        assert(edge_name_recorded(*self.graph, target, j, names@));
                    }
                    match first_named_scope_from(self.importer.named@, target, 0) {
                        Some(ti) => {
                            assert forall|kk: int|
                                0 <= kk < self.importer.named@[ti].1@.len() implies (
                            #[trigger] self.importer.named@[ti].1@[kk]).0 != n by {
                                assert(names@.contains(self.importer.named@[ti].1@[kk].0));
                            }
                            lemma_named_ident_absent(self.importer.named@[ti].1@, n, 0);
                        },
                        None => {},
                    }
                    assert(self.importer.spec_named_bucket(target, n) is None);
                    match first_glob_scope_from(self.importer.globs@, target, 0) {
                        Some(gi) => {
                            assert forall|ee: int, kk: int|
                                0 <= ee < self.importer.globs@[gi].1.entries@.len() && 0 <= kk
                                    < self.importer.globs@[gi].1.entries@[ee].1@.len() implies (
                            #[trigger] self.importer.globs@[gi].1.entries@[ee].1@[kk]).0 != n by {
                                assert(names@.contains(
                                    self.importer.globs@[gi].1.entries@[ee].1@[kk].0,
                                ));
                            }
                        },
                        None => {},
                    }
                    lemma_glob_reses_absent(*self.importer, target, n);
                    lemma_unknown_name_collects_nothing(
                        *self.graph,
                        *self.vis,
                        target,
                        use_scope,
                        self.importer.spec_glob_reses(target, n),
                        unresolved_named_imports@.contains(n),
                        n,
                    );
                }
            }
        }
        out
    }
}

/// A successful first-match search lands in range, on a matching key.
proof fn lemma_first_named_scope_bounds(
    named: Seq<(ScopeId, Vec<(IdentId, NameResBucket)>)>,
    scope: ScopeId,
    i: int,
)
    requires
        0 <= i,
    ensures
        match first_named_scope_from(named, scope, i) {
            Some(k) => i <= k < named.len() && named[k].0 == scope,
            None => true,
        },
    decreases named.len() - i,
{
    if i < named.len() && named[i].0 != scope {
        lemma_first_named_scope_bounds(named, scope, i + 1);
    }
}

/// A successful first-match search lands in range, on a matching key.
proof fn lemma_first_named_ident_bounds(table: Seq<(IdentId, NameResBucket)>, name: IdentId, j: int)
    requires
        0 <= j,
    ensures
        match first_named_ident_from(table, name, j) {
            Some(k) => j <= k < table.len() && table[k].0 == name,
            None => true,
        },
    decreases table.len() - j,
{
    if j < table.len() && table[j].0 != name {
        lemma_first_named_ident_bounds(table, name, j + 1);
    }
}

/// Appending an entry for one identifier to a named-import table changes no
/// other identifier's lookup.
proof fn lemma_named_table_append_preserves_other(
    table: Seq<(IdentId, NameResBucket)>,
    x: IdentId,
    b: NameResBucket,
    y: IdentId,
    j: int,
)
    requires
        y != x,
        0 <= j,
    ensures
        first_named_ident_from(table.push((x, b)), y, j) == first_named_ident_from(table, y, j),
    decreases table.len() + 1 - j,
{
    let t2 = table.push((x, b));
    if j < table.len() {
        assert(t2[j] == table[j]);
        lemma_named_table_append_preserves_other(table, x, b, y, j + 1);
    } else if j < t2.len() {
        assert(t2[j].0 == x);
        lemma_named_table_append_preserves_other(table, x, b, y, j + 1);
    }
}

/// Two named tables with the same scope keys agree on which entry a scope's
/// lookup finds.
proof fn lemma_first_scope_index_agrees(
    n1: Seq<(ScopeId, Vec<(IdentId, NameResBucket)>)>,
    n2: Seq<(ScopeId, Vec<(IdentId, NameResBucket)>)>,
    scope: ScopeId,
    i: int,
)
    requires
        0 <= i,
        n1.len() == n2.len(),
        forall|k: int| 0 <= k < n1.len() ==> (#[trigger] n2[k]).0 == n1[k].0,
    ensures
        first_named_scope_from(n2, scope, i) == first_named_scope_from(n1, scope, i),
    decreases n1.len() - i,
{
    if i < n1.len() {
        lemma_first_scope_index_agrees(n1, n2, scope, i + 1);
    }
}

/// Glob-collection monotonicity: adding a named import for one identifier
/// `x` to a scope's named-import table (appending an entry to that scope's
/// table and leaving everything else alone) never removes, reorders or
/// changes the entries collected for any other identifier `y` — whether in
/// the scope where the import was added or in any other scope.
pub proof fn lemma_glob_collection_monotone(
    graph: ScopeGraph,
    vis: VisibilityTable,
    target: ScopeId,
    use_scope: ScopeId,
    imp1: Importer,
    imp2: Importer,
    i0: int,
    x: IdentId,
    b: NameResBucket,
    y: IdentId,
    skip_glob: bool,
)
    requires
        y != x,
        imp2.globs@ == imp1.globs@,
        imp2.named@.len() == imp1.named@.len(),
        forall|k: int|
            0 <= k < imp1.named@.len() ==> (#[trigger] imp2.named@[k]).0 == imp1.named@[k].0,
        forall|k: int|
            0 <= k < imp1.named@.len() && k != i0 ==> (#[trigger] imp2.named@[k]).1@
                == imp1.named@[k].1@,
        0 <= i0 < imp1.named@.len(),
        imp2.named@[i0].1@ == imp1.named@[i0].1@.push((x, b)),
    ensures
        imp2.spec_named_bucket(target, y) == imp1.spec_named_bucket(target, y),
        imp2.spec_glob_reses(target, y) == imp1.spec_glob_reses(target, y),
        spec_collect_name(
            graph,
            vis,
            target,
            use_scope,
            imp2.spec_named_bucket(target, y),
            imp2.spec_glob_reses(target, y),
            skip_glob,
            y,
        ) == spec_collect_name(
            graph,
            vis,
            target,
            use_scope,
            imp1.spec_named_bucket(target, y),
            imp1.spec_glob_reses(target, y),
            skip_glob,
            y,
        ),
{
    lemma_first_scope_index_agrees(imp1.named@, imp2.named@, target, 0);
    lemma_first_named_scope_bounds(imp1.named@, target, 0);
    match first_named_scope_from(imp1.named@, target, 0) {
        Some(i) => {
            if i == i0 {
                lemma_named_table_append_preserves_other(imp1.named@[i0].1@, x, b, y, 0);
                lemma_first_named_ident_bounds(imp1.named@[i0].1@, y, 0);
                match first_named_ident_from(imp1.named@[i0].1@, y, 0) {
                    Some(j) => {
                        assert(imp2.named@[i0].1@[j] == imp1.named@[i0].1@[j]);
                    },
                    None => {},
                }
            }
        },
        None => {},
    }
}


/// For any scope and identifier, the returned bucket holds at most one
/// live resolution per domain: the bucket keeps a single slot per domain,
/// so two live resolutions of one domain are the same resolution.
pub proof fn lemma_resolve_at_most_one_per_domain(
    graph: ScopeGraph,
    importer: Importer,
    env: ExternalEnv,
    q: EarlyNameQueryId,
    r1: NameRes,
    r2: NameRes,
)
    requires
        ({
            let b = spec_resolve(graph, importer, env, q);
            b.live_type() == Some(r1) && b.live_type() == Some(r2) || b.live_value() == Some(r1)
                && b.live_value() == Some(r2) || b.live_field() == Some(r1) && b.live_field()
                == Some(r2)
        }),
    ensures
        r1 == r2,
{
}

} // verus!