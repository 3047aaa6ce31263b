//! The pattern simplifier: lowers surface match-arm patterns into the
//! canonical constructor-tree form, using the name resolver to turn path
//! patterns into enum-variant constructors.

use vstd::prelude::*;

use crate::bucket::spec_pick;
use crate::domain::NameDomain;
use crate::name_res::NameResKind;
use crate::pattern::{SPat, SPatKind, SimplifiedPattern, SimplifiedPatternKind};
use crate::resolver::{spec_resolve, EarlyNameQueryId, ExternalEnv, Importer, NameResolver, QueryDirective};
use crate::scope_graph::{ScopeGraph, ScopeId, ScopeKind};
use crate::types::{EnumVariantId, TypeCatalog, TypeId};
use crate::IdentId;

verus! {

/// A surface match-arm pattern, as the parser hands it over: a wildcard, a
/// bare path (one identifier), a path applied to tuple arguments, or an
/// or-pattern.
#[derive(Debug)]
pub enum Pattern {
    WildCard,
    Path(IdentId),
    PathTuple(IdentId, Vec<Pattern>),
    Or(Vec<Pattern>),
}

/// The node count of a surface pattern.
pub open spec fn surface_size(p: Pattern) -> nat
    decreases p, 0int,
{
    match p {
        Pattern::WildCard => 1,
        Pattern::Path(_) => 1,
        Pattern::PathTuple(_, elts) => 1 + surface_size_seq(elts@),
        Pattern::Or(ps) => 1 + surface_size_seq(ps@),
    }
}

/// The summed node count of a sequence of surface patterns.
pub open spec fn surface_size_seq(s: Seq<Pattern>) -> nat
    decreases s, 1int,
{
    if s.len() == 0 {
        0
    } else {
        surface_size(s[0]) + surface_size_seq(s.drop_first())
    }
}

/// One surface pattern weighs no more than its sequence.
pub proof fn lemma_surface_size_seq_element(s: Seq<Pattern>, i: int)
    requires
        0 <= i < s.len(),
    ensures
        surface_size(s[i]) <= surface_size_seq(s),
    decreases s.len(),
{
    if i > 0 {
        lemma_surface_size_seq_element(s.drop_first(), i - 1);
    }
}

/// The enum variant a bare identifier resolves to in `scope`, if any: the
/// full default query, picked in the value domain, accepted only when it
/// lands on a variant scope of the graph.
pub open spec fn spec_resolve_variant(
    graph: ScopeGraph,
    importer: Importer,
    env: ExternalEnv,
    scope: ScopeId,
    name: IdentId,
) -> Option<EnumVariantId> {
    let q = EarlyNameQueryId {
        name,
        scope,
        directive: QueryDirective { allow_lex: true, allow_external: true, allow_glob: true },
    };
    match spec_pick(spec_resolve(graph, importer, env, q), NameDomain::spec_value()) {
        Ok(res) => match res.kind {
            NameResKind::Scope(s) => if graph.holds(s) {
                match graph.spec_scope(s).kind {
                    ScopeKind::Variant(v) => Some(v),
                    _ => None,
                }
            } else {
                None
            },
            NameResKind::Prim(_) => None,
        },
        Err(_) => None,
    }
}

/// What a surface pattern lowers to against the expected type `ty`: a
/// wildcard stays one; a bare path that names an enum variant becomes that
/// constructor with no fields, and anything else (an identifier binding)
/// a wildcard; a path with tuple arguments becomes its variant's
/// constructor with each argument lowered against the declared field type;
/// an or-pattern lowers each alternative against `ty`.
pub open spec fn spec_simplify(
    graph: ScopeGraph,
    importer: Importer,
    env: ExternalEnv,
    cat: TypeCatalog,
    scope: ScopeId,
    p: Pattern,
    ty: TypeId,
) -> SPat
    decreases p, 0int,
{
    match p {
        Pattern::WildCard => SPat { kind: SPatKind::Wild, ty },
        Pattern::Path(name) => match spec_resolve_variant(graph, importer, env, scope, name) {
            Some(v) => SPat {
                kind: SPatKind::Ctor {
                    ctor: crate::pattern::ConstructorKind::Variant(v),
                    fields: Seq::empty(),
                },
                ty,
            },
            None => SPat { kind: SPatKind::Wild, ty },
        },
        Pattern::PathTuple(name, elts) => match spec_resolve_variant(
            graph,
            importer,
            env,
            scope,
            name,
        ) {
            Some(v) => {
                let c = crate::pattern::ConstructorKind::Variant(v);
                SPat {
                    kind: SPatKind::Ctor {
                        ctor: c,
                        fields: spec_simplify_fields(
                            graph,
                            importer,
                            env,
                            cat,
                            scope,
                            elts@,
                            c.spec_field_types(cat),
                        ),
                    },
                    ty,
                }
            },
            None => SPat { kind: SPatKind::Wild, ty },
        },
        Pattern::Or(ps) => SPat {
            kind: SPatKind::Or(spec_simplify_alts(graph, importer, env, cat, scope, ps@, ty)),
            ty,
        },
    }
}

/// The lowered sub-patterns of a tuple-variant pattern, each against its
/// declared field type.
pub open spec fn spec_simplify_fields(
    graph: ScopeGraph,
    importer: Importer,
    env: ExternalEnv,
    cat: TypeCatalog,
    scope: ScopeId,
    elts: Seq<Pattern>,
    tys: Seq<TypeId>,
) -> Seq<SPat>
    decreases elts, 1int,
{
    if elts.len() == 0 || tys.len() == 0 {
        Seq::empty()
    } else {
        seq![spec_simplify(graph, importer, env, cat, scope, elts[0], tys[0])]
            + spec_simplify_fields(
            graph,
            importer,
            env,
            cat,
            scope,
            elts.drop_first(),
            tys.drop_first(),
        )
    }
}

/// The lowered alternatives of an or-pattern, all against the same type.
pub open spec fn spec_simplify_alts(
    graph: ScopeGraph,
    importer: Importer,
    env: ExternalEnv,
    cat: TypeCatalog,
    scope: ScopeId,
    ps: Seq<Pattern>,
    ty: TypeId,
) -> Seq<SPat>
    decreases ps, 1int,
{
    if ps.len() == 0 {
        Seq::empty()
    } else {
        seq![spec_simplify(graph, importer, env, cat, scope, ps[0], ty)] + spec_simplify_alts(
            graph,
            importer,
            env,
            cat,
            scope,
            ps.drop_first(),
            ty,
        )
    }
}

/// Whether the pattern agrees with the expected type and the catalog: a
/// bare path that names a variant names one of the expected enum; a path
/// with arguments must name a variant of the expected enum, with as many
/// declared fields as arguments, each argument agreeing with its field
/// type. An earlier name-resolution and type-checking pass guarantees this
/// of patterns that reach the simplifier.
pub open spec fn pattern_resolves(
    graph: ScopeGraph,
    importer: Importer,
    env: ExternalEnv,
    cat: TypeCatalog,
    scope: ScopeId,
    p: Pattern,
    ty: TypeId,
) -> bool
    decreases p, 0int,
{
    match p {
        Pattern::WildCard => true,
        Pattern::Path(name) => match spec_resolve_variant(graph, importer, env, scope, name) {
            Some(v) => cat.holds_variant(v) && v.ty == ty && cat.spec_field_types(v).len() == 0,
            None => true,
        },
        Pattern::PathTuple(name, elts) => match spec_resolve_variant(
            graph,
            importer,
            env,
            scope,
            name,
        ) {
            Some(v) => {
                &&& cat.holds_variant(v)
                &&& v.ty == ty
                &&& cat.spec_field_types(v).len() == elts@.len()
                &&& patterns_resolve_fields(
                    graph,
                    importer,
                    env,
                    cat,
                    scope,
                    elts@,
                    cat.spec_field_types(v),
                )
            },
            None => false,
        },
        Pattern::Or(ps) => patterns_resolve_alts(graph, importer, env, cat, scope, ps@, ty),
    }
}

/// [`pattern_resolves`] of each argument against its field type.
pub open spec fn patterns_resolve_fields(
    graph: ScopeGraph,
    importer: Importer,
    env: ExternalEnv,
    cat: TypeCatalog,
    scope: ScopeId,
    s: Seq<Pattern>,
    tys: Seq<TypeId>,
) -> bool
    decreases s, 1int,
{
    s.len() == 0 || (tys.len() > 0 && pattern_resolves(graph, importer, env, cat, scope, s[0], tys[0])
        && patterns_resolve_fields(
        graph,
        importer,
        env,
        cat,
        scope,
        s.drop_first(),
        tys.drop_first(),
    ))
}

/// [`pattern_resolves`] of each alternative against the same type.
pub open spec fn patterns_resolve_alts(
    graph: ScopeGraph,
    importer: Importer,
    env: ExternalEnv,
    cat: TypeCatalog,
    scope: ScopeId,
    s: Seq<Pattern>,
    ty: TypeId,
) -> bool
    decreases s, 1int,
{
    s.len() == 0 || (pattern_resolves(graph, importer, env, cat, scope, s[0], ty)
        && patterns_resolve_alts(graph, importer, env, cat, scope, s.drop_first(), ty))
}

/// Lowers one surface pattern to its canonical constructor-tree form; see
/// [`spec_simplify`].
pub fn simplify_pattern(
    resolver: &NameResolver,
    cat: &TypeCatalog,
    scope: ScopeId,
    pat: &Pattern,
    ty: TypeId,
) -> (r: SimplifiedPattern)
    requires
        resolver.wf(),
        resolver.graph.holds(scope),
        pattern_resolves(
            *resolver.graph,
            *resolver.importer,
            *resolver.env,
            *cat,
            scope,
            *pat,
            ty,
        ),
    ensures
        r@ == spec_simplify(
            *resolver.graph,
            *resolver.importer,
            *resolver.env,
            *cat,
            scope,
            *pat,
            ty,
        ),
    decreases surface_size(*pat), 0int,
{
    match pat {
        Pattern::WildCard => SimplifiedPattern::wild_card(ty),
        Pattern::Path(name) => match resolve_variant_of(resolver, scope, *name) {
            Some(v) => {
                let r = SimplifiedPattern::new(
                    SimplifiedPatternKind::Constructor {
                        kind: crate::pattern::ConstructorKind::Variant(v),
                        fields: Vec::new(),
                    },
                    ty,
                );
                proof {
                    assert(r@.kind->Ctor_fields =~= Seq::<SPat>::empty());
                    assert(r@ =~~= spec_simplify(
                        *resolver.graph,
                        *resolver.importer,
                        *resolver.env,
                        *cat,
                        scope,
                        *pat,
                        ty,
                    ));
                }
                r
            },
            None => SimplifiedPattern::wild_card(ty),
        },
        Pattern::PathTuple(name, elts) => {
            let resolved = resolve_variant_of(resolver, scope, *name);
            match resolved {
                Some(v) => {
                    let c = crate::pattern::ConstructorKind::Variant(v);
                    let tys = c.field_types(cat);
                    let mut fields: Vec<SimplifiedPattern> = Vec::new();
                    let mut i: usize = 0;
                    proof {
                        lemma_fields_resolve_index(
                            *resolver.graph,
                            *resolver.importer,
                            *resolver.env,
                            *cat,
                            scope,
                            elts@,
                            c.spec_field_types(*cat),
                        );
                    }
                    while i < elts.len()
                        invariant
                            resolver.wf(),
                            resolver.graph.holds(scope),
                            surface_size(*pat) == 1 + surface_size_seq(elts@),
                            0 <= i <= elts@.len(),
                            tys@.len() == elts@.len(),
                            tys@ == c.spec_field_types(*cat),
                            forall|x: int|
                                0 <= x < elts@.len() ==> pattern_resolves(
                                    *resolver.graph,
                                    *resolver.importer,
                                    *resolver.env,
                                    *cat,
                                    scope,
                                    #[trigger] elts@[x],
                                    tys@[x],
                                ),
                            fields@.len() == i,
                            forall|x: int|
                                0 <= x < i ==> crate::pattern::pat_view(#[trigger] fields@[x])
                                    == spec_simplify(
                                    *resolver.graph,
                                    *resolver.importer,
                                    *resolver.env,
                                    *cat,
                                    scope,
                                    elts@[x],
                                    tys@[x],
                                ),
                        decreases elts@.len() - i,
                    {
                        proof {
                            lemma_surface_size_seq_element(elts@, i as int);
                            assert(surface_size(*pat) == 1 + surface_size_seq(elts@));
                        }
                        let f = simplify_pattern(resolver, cat, scope, &elts[i], tys[i]);
                        fields.push(f);
                        i = i + 1;
                    }
                    let r = SimplifiedPattern::new(
                        SimplifiedPatternKind::Constructor { kind: c, fields },
                        ty,
                    );
                    proof {
                        lemma_simplify_fields_index(
                            *resolver.graph,
                            *resolver.importer,
                            *resolver.env,
                            *cat,
                            scope,
                            elts@,
                            tys@,
                        );
                        crate::pattern::lemma_pats_view_len(r.kind->Constructor_fields@);
                        assert forall|x: int| 0 <= x < elts@.len() implies r@.kind->Ctor_fields[x]
                            == spec_simplify_fields(
                            *resolver.graph,
                            *resolver.importer,
                            *resolver.env,
                            *cat,
                            scope,
                            elts@,
                            tys@,
                        )[x] by {
                            crate::pattern::lemma_pats_view_index(
                                r.kind->Constructor_fields@,
                                x,
                            );
                        }
                        assert(r@.kind->Ctor_fields =~= spec_simplify_fields(
                            *resolver.graph,
                            *resolver.importer,
                            *resolver.env,
                            *cat,
                            scope,
                            elts@,
                            tys@,
                        ));
                        assert(r@ =~~= spec_simplify(
                            *resolver.graph,
                            *resolver.importer,
                            *resolver.env,
                            *cat,
                            scope,
                            *pat,
                            ty,
                        ));
                    }
                    r
                },
                None => {
                    proof {
                        assert(false);
                    }
                    SimplifiedPattern::wild_card(ty)
                },
            }
        },
        Pattern::Or(ps) => {
            let mut alts: Vec<SimplifiedPattern> = Vec::new();
            let mut i: usize = 0;
            proof {
                lemma_alts_resolve_index(
                    *resolver.graph,
                    *resolver.importer,
                    *resolver.env,
                    *cat,
                    scope,
                    ps@,
                    ty,
                );
            }
            while i < ps.len()
                invariant
                    resolver.wf(),
                    resolver.graph.holds(scope),
                    surface_size(*pat) == 1 + surface_size_seq(ps@),
                    0 <= i <= ps@.len(),
                    forall|x: int|
                        0 <= x < ps@.len() ==> pattern_resolves(
                            *resolver.graph,
                            *resolver.importer,
                            *resolver.env,
                            *cat,
                            scope,
                            #[trigger] ps@[x],
                            ty,
                        ),
                    alts@.len() == i,
                    forall|x: int|
                        0 <= x < i ==> crate::pattern::pat_view(#[trigger] alts@[x])
                            == spec_simplify(
                            *resolver.graph,
                            *resolver.importer,
                            *resolver.env,
                            *cat,
                            scope,
                            ps@[x],
                            ty,
                        ),
                decreases ps@.len() - i,
            {
                proof {
                    lemma_surface_size_seq_element(ps@, i as int);
                    assert(surface_size(*pat) == 1 + surface_size_seq(ps@));
                }
                let a = simplify_pattern(resolver, cat, scope, &ps[i], ty);
                alts.push(a);
                i = i + 1;
            }
            let r = SimplifiedPattern::new(SimplifiedPatternKind::Or(alts), ty);
            proof {
                lemma_simplify_alts_index(
                    *resolver.graph,
                    *resolver.importer,
                    *resolver.env,
                    *cat,
                    scope,
                    ps@,
                    ty,
                );
                crate::pattern::lemma_pats_view_len(r.kind->Or_0@);
                assert forall|x: int| 0 <= x < ps@.len() implies r@.kind->Or_0[x]
                    == spec_simplify_alts(
                    *resolver.graph,
                    *resolver.importer,
                    *resolver.env,
                    *cat,
                    scope,
                    ps@,
                    ty,
                )[x] by {
                    crate::pattern::lemma_pats_view_index(r.kind->Or_0@, x);
                }
                assert(r@.kind->Or_0 =~= spec_simplify_alts(
                    *resolver.graph,
                    *resolver.importer,
                    *resolver.env,
                    *cat,
                    scope,
                    ps@,
                    ty,
                ));
                assert(r@ =~~= spec_simplify(
                    *resolver.graph,
                    *resolver.importer,
                    *resolver.env,
                    *cat,
                    scope,
                    *pat,
                    ty,
                ));
            }
            r
        },
    }
}

/// The enum variant a bare identifier resolves to in `scope`, if any.
fn resolve_variant_of(resolver: &NameResolver, scope: ScopeId, name: IdentId) -> (r: Option<
    EnumVariantId,
>)
    requires
        resolver.wf(),
        resolver.graph.holds(scope),
    ensures
        r == spec_resolve_variant(
            *resolver.graph,
            *resolver.importer,
            *resolver.env,
            scope,
            name,
        ),
{
    let q = EarlyNameQueryId::new(name, scope, QueryDirective::new());
    let bucket = resolver.resolve_query(&q);
    match bucket.pick(NameDomain::value_dom()) {
        Ok(res) => match res.scope() {
            Some(s) => {
                if s.0 as usize >= resolver.graph.len() {
                    None
                } else {
                    match resolver.graph.scope(s).kind {
                        ScopeKind::Variant(v) => Some(v),
                        _ => None,
                    }
                }
            },
            None => None,
        },
        Err(_) => None,
    }
}

/// A resolving argument sequence resolves element-wise against its types.
pub proof fn lemma_fields_resolve_index(
    graph: ScopeGraph,
    importer: Importer,
    env: ExternalEnv,
    cat: TypeCatalog,
    scope: ScopeId,
    s: Seq<Pattern>,
    tys: Seq<TypeId>,
)
    requires
        patterns_resolve_fields(graph, importer, env, cat, scope, s, tys),
        s.len() == tys.len(),
    ensures
        forall|x: int|
            0 <= x < s.len() ==> pattern_resolves(
                graph,
                importer,
                env,
                cat,
                scope,
                #[trigger] s[x],
                tys[x],
            ),
    decreases s.len(),
{
    if s.len() > 0 {
        lemma_fields_resolve_index(
            graph,
            importer,
            env,
            cat,
            scope,
            s.drop_first(),
            tys.drop_first(),
        );
        assert forall|x: int| 0 <= x < s.len() implies pattern_resolves(
            graph,
            importer,
            env,
            cat,
            scope,
            #[trigger] s[x],
            tys[x],
        ) by {
            if x > 0 {
                assert(s.drop_first()[x - 1] == s[x]);
                assert(tys.drop_first()[x - 1] == tys[x]);
            }
        }
    }
}

/// A resolving alternative sequence resolves element-wise.
pub proof fn lemma_alts_resolve_index(
    graph: ScopeGraph,
    importer: Importer,
    env: ExternalEnv,
    cat: TypeCatalog,
    scope: ScopeId,
    s: Seq<Pattern>,
    ty: TypeId,
)
    requires
        patterns_resolve_alts(graph, importer, env, cat, scope, s, ty),
    ensures
        forall|x: int|
            0 <= x < s.len() ==> pattern_resolves(
                graph,
                importer,
                env,
                cat,
                scope,
                #[trigger] s[x],
                ty,
            ),
    decreases s.len(),
{
    if s.len() > 0 {
        lemma_alts_resolve_index(graph, importer, env, cat, scope, s.drop_first(), ty);
        assert forall|x: int| 0 <= x < s.len() implies pattern_resolves(
            graph,
            importer,
            env,
            cat,
            scope,
            #[trigger] s[x],
            ty,
        ) by {
            if x > 0 {
                assert(s.drop_first()[x - 1] == s[x]);
            }
        }
    }
}

/// Field lowering is element-wise.
pub proof fn lemma_simplify_fields_index(
    graph: ScopeGraph,
    importer: Importer,
    env: ExternalEnv,
    cat: TypeCatalog,
    scope: ScopeId,
    elts: Seq<Pattern>,
    tys: Seq<TypeId>,
)
    requires
        elts.len() == tys.len(),
    ensures
        spec_simplify_fields(graph, importer, env, cat, scope, elts, tys).len() == elts.len(),
        forall|x: int|
            0 <= x < elts.len() ==> #[trigger] spec_simplify_fields(
                graph,
                importer,
                env,
                cat,
                scope,
                elts,
                tys,
            )[x] == spec_simplify(graph, importer, env, cat, scope, elts[x], tys[x]),
    decreases elts.len(),
{
    if elts.len() > 0 {
        lemma_simplify_fields_index(
            graph,
            importer,
            env,
            cat,
            scope,
            elts.drop_first(),
            tys.drop_first(),
        );
        assert forall|x: int| 0 <= x < elts.len() implies #[trigger] spec_simplify_fields(
            graph,
            importer,
            env,
            cat,
            scope,
            elts,
            tys,
        )[x] == spec_simplify(graph, importer, env, cat, scope, elts[x], tys[x]) by {
            if x > 0 {
                assert(elts.drop_first()[x - 1] == elts[x]);
                assert(tys.drop_first()[x - 1] == tys[x]);
            }
        }
    }
}

/// Alternative lowering is element-wise.
pub proof fn lemma_simplify_alts_index(
    graph: ScopeGraph,
    importer: Importer,
    env: ExternalEnv,
    cat: TypeCatalog,
    scope: ScopeId,
    ps: Seq<Pattern>,
    ty: TypeId,
)
    ensures
        spec_simplify_alts(graph, importer, env, cat, scope, ps, ty).len() == ps.len(),
        forall|x: int|
            0 <= x < ps.len() ==> #[trigger] spec_simplify_alts(
                graph,
                importer,
                env,
                cat,
                scope,
                ps,
                ty,
            )[x] == spec_simplify(graph, importer, env, cat, scope, ps[x], ty),
    decreases ps.len(),
{
    if ps.len() > 0 {
        lemma_simplify_alts_index(graph, importer, env, cat, scope, ps.drop_first(), ty);
        assert forall|x: int| 0 <= x < ps.len() implies #[trigger] spec_simplify_alts(
            graph,
            importer,
            env,
            cat,
            scope,
            ps,
            ty,
        )[x] == spec_simplify(graph, importer, env, cat, scope, ps[x], ty) by {
            if x > 0 {
                assert(ps.drop_first()[x - 1] == ps[x]);
            }
        }
    }
}


/// A pattern that agrees with its expected type lowers to a well typed
/// simplified pattern of that type.
pub proof fn lemma_simplify_typed(
    graph: ScopeGraph,
    importer: Importer,
    env: ExternalEnv,
    cat: TypeCatalog,
    scope: ScopeId,
    p: Pattern,
    ty: TypeId,
)
    requires
        pattern_resolves(graph, importer, env, cat, scope, p, ty),
    ensures
        crate::pattern::pat_typed(cat, spec_simplify(graph, importer, env, cat, scope, p, ty)),
        spec_simplify(graph, importer, env, cat, scope, p, ty).ty == ty,
    decreases p, 0int,
{
    match p {
        Pattern::WildCard => {},
        Pattern::Path(name) => {},
        Pattern::PathTuple(name, elts) => {
            match spec_resolve_variant(graph, importer, env, scope, name) {
                Some(v) => {
                    let c = crate::pattern::ConstructorKind::Variant(v);
                    let tys = c.spec_field_types(cat);
                    lemma_simplify_fields_typed(graph, importer, env, cat, scope, elts@, tys);
                    lemma_simplify_fields_index(graph, importer, env, cat, scope, elts@, tys);
                    let fields = spec_simplify_fields(graph, importer, env, cat, scope, elts@, tys);
                    crate::exhaustiveness::lemma_pats_typed_index(cat, fields);
                    assert forall|x: int| 0 <= x < fields.len() implies (#[trigger] fields[x]).ty
                        == tys[x] by {
                        lemma_fields_resolve_index(graph, importer, env, cat, scope, elts@, tys);
                        lemma_simplify_typed(graph, importer, env, cat, scope, elts@[x], tys[x]);
                    }
                },
                None => {},
            }
        },
        Pattern::Or(ps) => {
            lemma_simplify_alts_typed(graph, importer, env, cat, scope, ps@, ty);
            lemma_simplify_alts_index(graph, importer, env, cat, scope, ps@, ty);
            let alts = spec_simplify_alts(graph, importer, env, cat, scope, ps@, ty);
            crate::exhaustiveness::lemma_pats_typed_index(cat, alts);
            assert forall|x: int| 0 <= x < alts.len() implies (#[trigger] alts[x]).ty == ty by {
                lemma_alts_resolve_index(graph, importer, env, cat, scope, ps@, ty);
                lemma_simplify_typed(graph, importer, env, cat, scope, ps@[x], ty);
            }
        },
    }
}

/// Field lowering of resolving arguments is well typed, element-wise.
pub proof fn lemma_simplify_fields_typed(
    graph: ScopeGraph,
    importer: Importer,
    env: ExternalEnv,
    cat: TypeCatalog,
    scope: ScopeId,
    elts: Seq<Pattern>,
    tys: Seq<TypeId>,
)
    requires
        patterns_resolve_fields(graph, importer, env, cat, scope, elts, tys),
        elts.len() == tys.len(),
    ensures
        crate::pattern::pats_typed(
            cat,
            spec_simplify_fields(graph, importer, env, cat, scope, elts, tys),
        ),
    decreases elts, 1int,
{
    if elts.len() > 0 {
        lemma_simplify_typed(graph, importer, env, cat, scope, elts[0], tys[0]);
        lemma_simplify_fields_typed(
            graph,
            importer,
            env,
            cat,
            scope,
            elts.drop_first(),
            tys.drop_first(),
        );
        let whole = spec_simplify_fields(graph, importer, env, cat, scope, elts, tys);
        assert(whole.drop_first() =~= spec_simplify_fields(
            graph,
            importer,
            env,
            cat,
            scope,
            elts.drop_first(),
            tys.drop_first(),
        ));
    }
}

/// Alternative lowering of resolving alternatives is well typed.
pub proof fn lemma_simplify_alts_typed(
    graph: ScopeGraph,
    importer: Importer,
    env: ExternalEnv,
    cat: TypeCatalog,
    scope: ScopeId,
    ps: Seq<Pattern>,
    ty: TypeId,
)
    requires
        patterns_resolve_alts(graph, importer, env, cat, scope, ps, ty),
    ensures
        crate::pattern::pats_typed(
            cat,
            spec_simplify_alts(graph, importer, env, cat, scope, ps, ty),
        ),
    decreases ps, 1int,
{
    if ps.len() > 0 {
        lemma_simplify_typed(graph, importer, env, cat, scope, ps[0], ty);
        lemma_simplify_alts_typed(graph, importer, env, cat, scope, ps.drop_first(), ty);
        let whole = spec_simplify_alts(graph, importer, env, cat, scope, ps, ty);
        assert(whole.drop_first() =~= spec_simplify_alts(
            graph,
            importer,
            env,
            cat,
            scope,
            ps.drop_first(),
            ty,
        ));
    }
}

} // verus!
