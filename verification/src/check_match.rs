//! The `match` exhaustiveness entry point: builds the pattern matrix from
//! the lowered arms, runs the specialization algorithm, and renders the
//! witness into a diagnostic.

use vstd::prelude::*;

use crate::exhaustiveness::{
    matrix_input_ok, spec_expand_from, spec_find, PatternMatrix, PatternRowVec,
};
use crate::pattern::{pat_view, pats_view, ConstructorKind, SPat, SPatKind, SimplifiedPattern};
use crate::resolver::NameResolver;
use crate::scope_graph::ScopeId;
use crate::simplify::{pattern_resolves, simplify_pattern, spec_simplify, Pattern};
use crate::types::{EnumVariantId, TypeCatalog, TypeDef, TypeId, VariantKind};
use crate::{IdentTable, SpanId};

verus! {

/// One structured diagnostic of the checker: the span it points at, its
/// message, and the label text attached to the span.
#[derive(Debug)]
pub struct Diagnostic {
    pub span: SpanId,
    pub message: String,
    pub label: String,
}

/// Whether a variant's rendering can consult the catalog and the identifier
/// table.
pub open spec fn spec_renderable(cat: TypeCatalog, tbl: IdentTable, vid: EnumVariantId) -> bool {
    &&& cat.holds_variant(vid)
    &&& tbl.holds(cat.spec_def(vid.ty)->Enum_0.name)
    &&& tbl.holds(cat.spec_variants(vid.ty)[vid.idx as int].name)
}

/// The rendering of one witness pattern, in the language's own constructor
/// syntax: `_` for a wildcard; `Enum::Variant` for a unit variant, with the
/// parenthesized rendered fields otherwise; or-alternatives joined by `| `.
/// A constructor outside the catalog or the identifier table renders as
/// `_`; real witnesses never hold one.
pub open spec fn spec_render(cat: TypeCatalog, tbl: IdentTable, v: SPat) -> Seq<char>
    decreases crate::pattern::fsize(v), 0int, 0int,
{
    match v.kind {
        SPatKind::Wild => "_"@,
        SPatKind::Ctor { ctor, fields } => {
            let ConstructorKind::Variant(vid) = ctor;
            if spec_renderable(cat, tbl, vid) {
                let names = tbl.spec_text(cat.spec_def(vid.ty)->Enum_0.name) + "::"@
                    + tbl.spec_text(cat.spec_variants(vid.ty)[vid.idx as int].name);
                if cat.spec_variants(vid.ty)[vid.idx as int].kind is Unit {
                    names
                } else {
                    proof {
                        assert(crate::pattern::fsize(v) == 1 + crate::pattern::fsize_seq(fields));
                    }
                    names + "("@ + spec_render_join(cat, tbl, fields, ", "@) + ")"@
                }
            } else {
                "_"@
            }
        },
        SPatKind::Or(ps) => {
            proof {
                assert(crate::pattern::fsize(v) == 1 + crate::pattern::fsize_seq(ps));
            }
            spec_render_join(cat, tbl, ps, "| "@)
        },
    }
}

/// The renderings of the patterns, joined by `sep`.
pub open spec fn spec_render_join(
    cat: TypeCatalog,
    tbl: IdentTable,
    s: Seq<SPat>,
    sep: Seq<char>,
) -> Seq<char>
    decreases crate::pattern::fsize_seq(s), 1int, 0int,
{
    if s.len() == 0 {
        Seq::empty()
    } else {
        proof {
            assert(crate::pattern::fsize_seq(s) == crate::pattern::fsize(s[0])
                + crate::pattern::fsize_seq(s.drop_first()));
            crate::exhaustiveness::lemma_fsize_pos(s[0]);
        }
        spec_render(cat, tbl, s[0]) + spec_render_rest(cat, tbl, s.drop_first(), sep)
    }
}

/// The renderings of the non-first patterns, each preceded by `sep`.
pub open spec fn spec_render_rest(
    cat: TypeCatalog,
    tbl: IdentTable,
    s: Seq<SPat>,
    sep: Seq<char>,
) -> Seq<char>
    decreases crate::pattern::fsize_seq(s), 2int, 0int,
{
    if s.len() == 0 {
        Seq::empty()
    } else {
        proof {
            assert(crate::pattern::fsize_seq(s) == crate::pattern::fsize(s[0])
                + crate::pattern::fsize_seq(s.drop_first()));
            crate::exhaustiveness::lemma_fsize_pos(s[0]);
        }
        sep + spec_render(cat, tbl, s[0]) + spec_render_rest(cat, tbl, s.drop_first(), sep)
    }
}

/// The rendering of a whole witness: the single pattern itself, or the
/// leftover columns as a parenthesized tuple.
pub open spec fn spec_display_witness(cat: TypeCatalog, tbl: IdentTable, w: Seq<SPat>) -> Seq<
    char,
> {
    if w.len() == 1 {
        spec_render(cat, tbl, w[0])
    } else {
        "("@ + spec_render_join(cat, tbl, w, ", "@) + ")"@
    }
}

/// The label of a non-exhaustiveness diagnostic.
pub open spec fn spec_not_covered_label(cat: TypeCatalog, tbl: IdentTable, w: Seq<SPat>) -> Seq<
    char,
> {
    "`"@ + spec_display_witness(cat, tbl, w) + "` not covered"@
}

/// Whether the variant can be rendered from the catalog and table.
fn renderable(cat: &TypeCatalog, tbl: &IdentTable, vid: EnumVariantId) -> (r: bool)
    ensures
        r == spec_renderable(*cat, *tbl, vid),
{
    if (vid.ty.0 as usize) >= cat.types.len() {
        return false;
    }
    match cat.type_def(vid.ty) {
        TypeDef::Enum(def) => {
            if (vid.idx as usize) >= def.variants.len() {
                return false;
            }
            let ename = def.name;
            let vname = def.variants[vid.idx as usize].name;
            (ename.0 as usize) < tbl.names.len() && (vname.0 as usize) < tbl.names.len()
        },
        TypeDef::Other => false,
    }
}

impl SimplifiedPattern {
    /// Renders the pattern; see [`spec_render`].
    pub fn format(&self, cat: &TypeCatalog, tbl: &IdentTable) -> (r: String)
        ensures
            r@ == spec_render(*cat, *tbl, self@),
        decreases crate::pattern::fsize(self@), 0int, 0int,
    {
        match &self.kind {
            crate::pattern::SimplifiedPatternKind::WildCard => {
                let r = String::from_str("_");
                proof {
                    assert(self@.kind is Wild);
                }
                r
            },
            crate::pattern::SimplifiedPatternKind::Constructor { kind, fields } => {
                let ConstructorKind::Variant(vid) = *kind;
                proof {
                    assert(self@.kind->Ctor_ctor == *kind);
                    assert(self@.kind->Ctor_fields == pats_view(fields@));
                    assert(crate::pattern::fsize(self@) == 1 + crate::pattern::fsize_seq(
                        pats_view(fields@),
                    ));
                }
                if !renderable(cat, tbl, vid) {
                    String::from_str("_")
                } else {
                    let mut out = String::new();
                    match cat.type_def(vid.ty) {
                        TypeDef::Enum(def) => {
                            out.append(tbl.text(def.name).as_str());
                            out.append("::");
                            out.append(tbl.text(def.variants[vid.idx as usize].name).as_str());
                            let is_unit = matches!(
                                def.variants[vid.idx as usize].kind,
                                VariantKind::Unit
                            );
                            if !is_unit {
                                out.append("(");
                                let joined = render_join(cat, tbl, fields, ", ");
                                out.append(joined.as_str());
                                out.append(")");
                            }
                            proof {
                                assert(out@ =~= spec_render(*cat, *tbl, self@));
                            }
                            out
                        },
                        TypeDef::Other => vstd::pervasive::unreached(),
                    }
                }
            },
            crate::pattern::SimplifiedPatternKind::Or(ps) => {
                proof {
                    assert(self@.kind->Or_0 == pats_view(ps@));
                    assert(crate::pattern::fsize(self@) == 1 + crate::pattern::fsize_seq(
                        pats_view(ps@),
                    ));
                }
                render_join(cat, tbl, ps, "| ")
            },
        }
    }
}

/// Renders the patterns, joined by `sep`; see [`spec_render_join`].
fn render_join(cat: &TypeCatalog, tbl: &IdentTable, ps: &Vec<SimplifiedPattern>, sep: &str) -> (r:
    String)
    ensures
        r@ == spec_render_join(*cat, *tbl, pats_view(ps@), sep@),
    decreases crate::pattern::fsize_seq(pats_view(ps@)), 1int, 0int,
{
    proof {
        crate::pattern::lemma_pats_view_len(ps@);
    }
    if ps.len() == 0 {
        String::new()
    } else {
        proof {
            crate::pattern::lemma_pats_view_index(ps@, 0);
            assert(pats_view(ps@)[0] == pat_view(ps@[0]));
            assert(crate::pattern::fsize_seq(pats_view(ps@)) == crate::pattern::fsize(
                pats_view(ps@)[0],
            ) + crate::pattern::fsize_seq(pats_view(ps@).drop_first()));
            crate::exhaustiveness::lemma_fsize_pos(pats_view(ps@)[0]);
        }
        let mut out = ps[0].format(cat, tbl);
        let rest = render_rest(cat, tbl, ps, 1, sep);
        out.append(rest.as_str());
        proof {
            assert(out@ =~= spec_render_join(*cat, *tbl, pats_view(ps@), sep@)) by {
                assert(pats_view(ps@).skip(1) =~= pats_view(ps@).drop_first());
            }
        }
        out
    }
}

/// Renders the patterns from `j` on, each preceded by `sep`; see
/// [`spec_render_rest`].
fn render_rest(
    cat: &TypeCatalog,
    tbl: &IdentTable,
    ps: &Vec<SimplifiedPattern>,
    j: usize,
    sep: &str,
) -> (r: String)
    requires
        j <= ps@.len(),
    ensures
        r@ == spec_render_rest(*cat, *tbl, pats_view(ps@).skip(j as int), sep@),
    decreases crate::pattern::fsize_seq(pats_view(ps@).skip(j as int)), 2int, 0int,
{
    let ghost whole = pats_view(ps@);
    proof {
        crate::pattern::lemma_pats_view_len(ps@);
    }
    if j == ps.len() {
        let r = String::new();
        proof {
            assert(whole.skip(j as int).len() == 0);
        }
        r
    } else {
        proof {
            crate::pattern::lemma_pats_view_index(ps@, j as int);
            assert(whole.skip(j as int)[0] == pat_view(ps@[j as int]));
            assert(whole.skip(j as int).drop_first() =~= whole.skip(j as int + 1));
            assert(crate::pattern::fsize_seq(whole.skip(j as int)) == crate::pattern::fsize(
                whole.skip(j as int)[0],
            ) + crate::pattern::fsize_seq(whole.skip(j as int).drop_first()));
            crate::exhaustiveness::lemma_fsize_pos(whole.skip(j as int)[0]);
        }
        let mut out = String::from_str(sep);
        let head = ps[j].format(cat, tbl);
        out.append(head.as_str());
        let rest = render_rest(cat, tbl, ps, j + 1, sep);
        out.append(rest.as_str());
        proof {
            assert(out@ =~= spec_render_rest(*cat, *tbl, whole.skip(j as int), sep@));
        }
        out
    }
}

/// Renders a whole witness; see [`spec_display_witness`].
pub fn display_non_exhaustive_patterns(
    cat: &TypeCatalog,
    tbl: &IdentTable,
    pats: &Vec<SimplifiedPattern>,
) -> (r: String)
    ensures
        r@ == spec_display_witness(*cat, *tbl, pats_view(pats@)),
{
    proof {
        crate::pattern::lemma_pats_view_len(pats@);
    }
    if pats.len() == 1 {
        proof {
            crate::pattern::lemma_pats_view_index(pats@, 0);
        }
        pats[0].format(cat, tbl)
    } else {
        let mut out = String::from_str("(");
        let joined = render_join(cat, tbl, pats, ", ");
        out.append(joined.as_str());
        out.append(")");
        proof {
            assert(out@ =~= spec_display_witness(*cat, *tbl, pats_view(pats@)));
        }
        out
    }
}

/// The matrix the arms lower to: one single-column row per arm.
pub open spec fn spec_from_arms(
    graph: crate::scope_graph::ScopeGraph,
    importer: crate::resolver::Importer,
    env: crate::resolver::ExternalEnv,
    cat: TypeCatalog,
    scope: ScopeId,
    arms: Seq<Pattern>,
    ty: TypeId,
) -> Seq<Seq<SPat>> {
    Seq::new(
        arms.len(),
        |i: int| seq![spec_simplify(graph, importer, env, cat, scope, arms[i], ty)],
    )
}

impl PatternMatrix {
    /// Builds the matrix from the lowered arms: one row per arm, each row
    /// currently holding exactly one column, the simplified scrutinee
    /// pattern.
    pub fn from_arms(
        resolver: &NameResolver,
        cat: &TypeCatalog,
        scope: ScopeId,
        arms: &Vec<Pattern>,
        ty: TypeId,
    ) -> (r: PatternMatrix)
        requires
            resolver.wf(),
            resolver.graph.holds(scope),
            forall|i: int|
                0 <= i < arms@.len() ==> pattern_resolves(
                    *resolver.graph,
                    *resolver.importer,
                    *resolver.env,
                    *cat,
                    scope,
                    #[trigger] arms@[i],
                    ty,
                ),
        ensures
            r@ == spec_from_arms(
                *resolver.graph,
                *resolver.importer,
                *resolver.env,
                *cat,
                scope,
                arms@,
                ty,
            ),
            matrix_input_ok(*cat, r@),
    {
        let ghost g = *resolver.graph;
        let ghost imp = *resolver.importer;
        let ghost e = *resolver.env;
        let mut rows: Vec<PatternRowVec> = Vec::new();
        let mut i: usize = 0;
        while i < arms.len()
            invariant
                resolver.wf(),
                resolver.graph.holds(scope),
                g == *resolver.graph,
                imp == *resolver.importer,
                e == *resolver.env,
                forall|x: int|
                    0 <= x < arms@.len() ==> pattern_resolves(
                        g,
                        imp,
                        e,
                        *cat,
                        scope,
                        #[trigger] arms@[x],
                        ty,
                    ),
                0 <= i <= arms@.len(),
                rows@.len() == i,
                forall|x: int|
                    0 <= x < i ==> (#[trigger] rows@[x])@ =~= seq![
                        spec_simplify(g, imp, e, *cat, scope, arms@[x], ty),
                    ],
            decreases arms@.len() - i,
        {
            let p = simplify_pattern(resolver, cat, scope, &arms[i], ty);
            let mut inner: Vec<SimplifiedPattern> = Vec::new();
            inner.push(p);
            let row = PatternRowVec { inner };
            proof {
                crate::pattern::lemma_pats_view_len(row.inner@);
                crate::pattern::lemma_pats_view_index(row.inner@, 0);
                assert(row@ =~= seq![spec_simplify(g, imp, e, *cat, scope, arms@[i as int], ty)]);
            }
            rows.push(row);
            i = i + 1;
        }
        let r = PatternMatrix { rows };
        proof {
            assert(r@ =~= spec_from_arms(g, imp, e, *cat, scope, arms@, ty));
            assert forall|j: int| 0 <= j < r@.len() implies crate::pattern::pats_typed(
                *cat,
                #[trigger] r@[j],
            ) && r@[j].len() == r@[0].len() by {
                crate::simplify::lemma_simplify_typed(g, imp, e, *cat, scope, arms@[j], ty);
                let sp = spec_simplify(g, imp, e, *cat, scope, arms@[j], ty);
                assert(r@[j] =~= seq![sp]);
                assert(crate::pattern::pats_typed(*cat, seq![sp])) by {
                    assert(seq![sp][0] == sp);
                    assert(seq![sp].drop_first() =~= Seq::<SPat>::empty());
                    assert(crate::pattern::pats_typed(*cat, Seq::<SPat>::empty()));
                }
            }
            if r@.len() > 0 {
                assert forall|j: int, m: int|
                    0 <= j < r@.len() && 0 <= m < r@[j].len() && m < crate::exhaustiveness::matrix_cols(
                        r@,
                    ).len() implies (#[trigger] r@[j][m]).ty == crate::exhaustiveness::matrix_cols(
                    r@,
                )[m] by {
                    crate::simplify::lemma_simplify_typed(g, imp, e, *cat, scope, arms@[j], ty);
                    crate::simplify::lemma_simplify_typed(g, imp, e, *cat, scope, arms@[0], ty);
                    assert(r@[j][0] == spec_simplify(g, imp, e, *cat, scope, arms@[j], ty));
                    assert(r@[0][0] == spec_simplify(g, imp, e, *cat, scope, arms@[0], ty));
                }
            }
        }
        r
    }
}

/// Checks one `match` for exhaustiveness: with no arms at all it fails at
/// once; otherwise it builds the pattern matrix and reports the witness the
/// specialization algorithm finds, if any. Exactly one diagnostic is
/// produced per non-exhaustive `match`.
pub fn check_match_exhaustiveness(
    resolver: &NameResolver,
    cat: &TypeCatalog,
    tbl: &IdentTable,
    scope: ScopeId,
    arms: &Vec<Pattern>,
    match_span: SpanId,
    ty: TypeId,
) -> (r: Result<(), Diagnostic>)
    requires
        resolver.wf(),
        resolver.graph.holds(scope),
        cat.wf(),
        forall|i: int|
            0 <= i < arms@.len() ==> pattern_resolves(
                *resolver.graph,
                *resolver.importer,
                *resolver.env,
                *cat,
                scope,
                #[trigger] arms@[i],
                ty,
            ),
    ensures
        ({
            let rows = spec_from_arms(
                *resolver.graph,
                *resolver.importer,
                *resolver.env,
                *cat,
                scope,
                arms@,
                ty,
            );
            &&& arms@.len() == 0 ==> (r matches Err(d) && d.span == match_span && d.message@
                == "patterns is not exhaustive"@ && d.label@
                == "expected at least one match arm here"@)
            &&& arms@.len() > 0 ==> match spec_find(*cat, spec_expand_from(rows, 0)) {
                None => r is Ok,
                Some(w) => r matches Err(d) && d.span == match_span && d.message@
                    == "patterns is not exhaustive"@ && d.label@ == spec_not_covered_label(
                    *cat,
                    *tbl,
                    w,
                ),
            }
        }),
{
    if arms.len() == 0 {
        return Err(
            Diagnostic {
                span: match_span,
                message: String::from_str("patterns is not exhaustive"),
                label: String::from_str("expected at least one match arm here"),
            },
        );
    }
    let matrix = PatternMatrix::from_arms(resolver, cat, scope, arms, ty);
    match matrix.find_non_exhaustiveness(cat) {
        Some(pats) => {
            let mut label = String::from_str("`");
            let shown = display_non_exhaustive_patterns(cat, tbl, &pats);
            label.append(shown.as_str());
            label.append("` not covered");
            proof {
                assert(label@ =~= spec_not_covered_label(*cat, *tbl, pats_view(pats@)));
            }
            Err(
                Diagnostic {
                    span: match_span,
                    message: String::from_str("patterns is not exhaustive"),
                    label,
                },
            )
        },
        None => Ok(()),
    }
}

} // verus!
