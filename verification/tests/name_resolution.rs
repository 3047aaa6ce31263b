use fe_analysis::bucket::NameResBucket;
use fe_analysis::domain::NameDomain;
use fe_analysis::name_res::{
    NameDerivation, NameRes, NameResKind, NameResolutionError, VisTarget, VisibilityTable,
};
use fe_analysis::resolver::{
    EarlyNameQueryId, ExternalEnv, GlobImportTable, Importer, NameResolver, QueryDirective,
};
use fe_analysis::scope_graph::{
    Edge, EdgeKind, ItemKind, Scope, ScopeGraph, ScopeId, ScopeKind, SpecialIdents, TraitId,
};
use fe_analysis::{IdentId, PrimTy, UseId};

fn specials() -> SpecialIdents {
    SpecialIdents {
        super_kw: IdentId(100),
        ingot_kw: IdentId(101),
        self_value_kw: IdentId(102),
        self_ty_kw: IdentId(103),
    }
}

fn item_scope(kind: ItemKind, name: Option<IdentId>, edges: Vec<Edge>) -> Scope {
    Scope { kind: ScopeKind::Item(kind), name, name_span: None, edges, params: Vec::new() }
}

fn empty_importer() -> Importer {
    Importer { named: Vec::new(), globs: Vec::new() }
}

fn empty_env() -> ExternalEnv {
    ExternalEnv { external_ingots: Vec::new(), prims: Vec::new() }
}

fn all_visible() -> VisibilityTable {
    VisibilityTable { default_visible: true, exceptions: Vec::new() }
}

fn deriv_is_def(d: &NameDerivation) -> bool {
    matches!(d, NameDerivation::Def)
}

/// A definition in the scope itself wins over a named import of the same
/// identifier and domain.
#[test]
fn def_outranks_named_import() {
    let x = IdentId(1);
    // Scope 0: a module with a type member `x` pointing at scope 1.
    let graph = ScopeGraph {
        scopes: vec![
            item_scope(
                ItemKind::Mod,
                Some(IdentId(0)),
                vec![Edge { dest: ScopeId(1), kind: EdgeKind::Type(x) }],
            ),
            item_scope(ItemKind::Struct, Some(x), vec![]),
        ],
        special: specials(),
    };
    // The importer also knows a named import of `x` in scope 0.
    let mut imported = NameResBucket::new();
    imported.push(&NameRes {
        kind: NameResKind::Scope(ScopeId(1)),
        domain: NameDomain::type_dom(),
        derivation: NameDerivation::NamedImported(UseId(9)),
    });
    let importer = Importer {
        named: vec![(ScopeId(0), vec![(x, imported)])],
        globs: Vec::new(),
    };
    let env = empty_env();
    let vis = all_visible();
    let resolver = NameResolver::new(&graph, &importer, &env, &vis);
    let bucket = resolver.resolve_query(&EarlyNameQueryId::new(x, ScopeId(0), QueryDirective::new()));
    let res = bucket.pick(NameDomain::type_dom()).expect("x should resolve");
    assert!(deriv_is_def(&res.derivation));
}

/// A named import wins over a glob import, which wins over a lexically
/// inherited definition, which wins over a builtin.
#[test]
fn shadowing_order_across_tiers() {
    let x = IdentId(1);
    // Scope 0: outer module defining `x`; scope 1: inner module with a
    // lexical edge to scope 0.
    let graph = ScopeGraph {
        scopes: vec![
            item_scope(
                ItemKind::Mod,
                Some(IdentId(0)),
                vec![Edge { dest: ScopeId(2), kind: EdgeKind::Type(x) }],
            ),
            item_scope(ItemKind::Mod, Some(IdentId(5)), vec![Edge {
                dest: ScopeId(0),
                kind: EdgeKind::Lex,
            }]),
            item_scope(ItemKind::Struct, Some(x), vec![]),
            item_scope(ItemKind::Struct, Some(x), vec![]),
        ],
        special: specials(),
    };
    let env = ExternalEnv { external_ingots: Vec::new(), prims: vec![(x, PrimTy(0))] };
    let vis = all_visible();

    // Only the lexical parent and the builtin know `x`: the parent wins.
    let importer = empty_importer();
    let resolver = NameResolver::new(&graph, &importer, &env, &vis);
    let bucket = resolver.resolve_query(&EarlyNameQueryId::new(x, ScopeId(1), QueryDirective::new()));
    let res = bucket.pick(NameDomain::type_dom()).expect("x should resolve");
    assert!(matches!(res.derivation, NameDerivation::Lex(_)));

    // A glob import in the inner scope outranks the lexical parent.
    let glob_res = NameRes {
        kind: NameResKind::Scope(ScopeId(3)),
        domain: NameDomain::type_dom(),
        derivation: NameDerivation::GlobImported(UseId(7)),
    };
    let importer = Importer {
        named: Vec::new(),
        globs: vec![(ScopeId(1), GlobImportTable { entries: vec![(UseId(7), vec![(x, vec![glob_res])])] })],
    };
    let resolver = NameResolver::new(&graph, &importer, &env, &vis);
    let bucket = resolver.resolve_query(&EarlyNameQueryId::new(x, ScopeId(1), QueryDirective::new()));
    let res = bucket.pick(NameDomain::type_dom()).expect("x should resolve");
    assert!(matches!(res.derivation, NameDerivation::GlobImported(_)));

    // A named import outranks the glob import.
    let mut imported = NameResBucket::new();
    imported.push(&NameRes {
        kind: NameResKind::Scope(ScopeId(2)),
        domain: NameDomain::type_dom(),
        derivation: NameDerivation::NamedImported(UseId(8)),
    });
    let importer = Importer {
        named: vec![(ScopeId(1), vec![(x, imported)])],
        globs: vec![(ScopeId(1), GlobImportTable {
            entries: vec![(UseId(7), vec![(x, vec![NameRes {
                kind: NameResKind::Scope(ScopeId(3)),
                domain: NameDomain::type_dom(),
                derivation: NameDerivation::GlobImported(UseId(7)),
            }])])],
        })],
    };
    let resolver = NameResolver::new(&graph, &importer, &env, &vis);
    let bucket = resolver.resolve_query(&EarlyNameQueryId::new(x, ScopeId(1), QueryDirective::new()));
    let res = bucket.pick(NameDomain::type_dom()).expect("x should resolve");
    assert!(matches!(res.derivation, NameDerivation::NamedImported(_)));
}

/// With lexical lookup disallowed, an identifier that exists only in an
/// enclosing scope is not found.
#[test]
fn disallow_lex_yields_not_found() {
    let x = IdentId(1);
    let graph = ScopeGraph {
        scopes: vec![
            item_scope(
                ItemKind::Mod,
                Some(IdentId(0)),
                vec![Edge { dest: ScopeId(2), kind: EdgeKind::Type(x) }],
            ),
            item_scope(ItemKind::Mod, Some(IdentId(5)), vec![Edge {
                dest: ScopeId(0),
                kind: EdgeKind::Lex,
            }]),
            item_scope(ItemKind::Struct, Some(x), vec![]),
        ],
        special: specials(),
    };
    let importer = empty_importer();
    let env = empty_env();
    let vis = all_visible();
    let resolver = NameResolver::new(&graph, &importer, &env, &vis);
    let with_lex = resolver
        .resolve_query(&EarlyNameQueryId::new(x, ScopeId(1), QueryDirective::new()));
    assert!(with_lex.pick(NameDomain::type_dom()).is_ok());
    let without_lex = resolver.resolve_query(&EarlyNameQueryId::new(
        x,
        ScopeId(1),
        QueryDirective::new().disallow_lex(),
    ));
    assert!(matches!(
        without_lex.pick(NameDomain::type_dom()),
        Err(NameResolutionError::NotFound)
    ));
}

/// Two named imports of the same identifier and domain from distinct
/// sources yield an ambiguity holding both candidates, in insertion order.
#[test]
fn two_named_imports_are_ambiguous() {
    let a = NameRes {
        kind: NameResKind::Scope(ScopeId(10)),
        domain: NameDomain::type_dom(),
        derivation: NameDerivation::NamedImported(UseId(1)),
    };
    let b = NameRes {
        kind: NameResKind::Scope(ScopeId(11)),
        domain: NameDomain::type_dom(),
        derivation: NameDerivation::NamedImported(UseId(2)),
    };
    let mut bucket = NameResBucket::new();
    bucket.push(&a);
    bucket.push(&b);
    match bucket.pick(NameDomain::type_dom()) {
        Err(NameResolutionError::Ambiguous(group)) => {
            assert_eq!(group.len(), 2);
            assert_eq!(group[0].kind, NameResKind::Scope(ScopeId(10)));
            assert_eq!(group[1].kind, NameResKind::Scope(ScopeId(11)));
        }
        other => panic!("expected an ambiguity, got {:?}", other),
    }
}

/// The bucket keeps at most one live resolution per domain, and one
/// identifier may live in the type and the value domain at once.
#[test]
fn one_live_resolution_per_domain() {
    let ty_res = NameRes {
        kind: NameResKind::Scope(ScopeId(10)),
        domain: NameDomain::type_dom(),
        derivation: NameDerivation::Def,
    };
    let val_res = NameRes {
        kind: NameResKind::Scope(ScopeId(11)),
        domain: NameDomain::value_dom(),
        derivation: NameDerivation::Def,
    };
    let mut bucket = NameResBucket::new();
    bucket.push(&ty_res);
    bucket.push(&val_res);
    assert_eq!(bucket.len(), 2);
    assert_eq!(
        bucket.pick(NameDomain::type_dom()).unwrap().kind,
        NameResKind::Scope(ScopeId(10))
    );
    assert_eq!(
        bucket.pick(NameDomain::value_dom()).unwrap().kind,
        NameResKind::Scope(ScopeId(11))
    );
}

/// An error other than `NotFound` in a domain slot suppresses later
/// candidates instead of being overwritten.
#[test]
fn errors_suppress_later_candidates() {
    let mut bucket = NameResBucket::new();
    bucket.type_slot = Some(Err(NameResolutionError::Invalid));
    let candidate = NameRes {
        kind: NameResKind::Scope(ScopeId(10)),
        domain: NameDomain::type_dom(),
        derivation: NameDerivation::Def,
    };
    bucket.push(&candidate);
    assert!(matches!(
        bucket.pick(NameDomain::type_dom()),
        Err(NameResolutionError::Invalid)
    ));
}

/// An invisible target is dropped from a glob collection; a visible one is
/// kept.
#[test]
fn glob_collection_respects_visibility() {
    let a = IdentId(1);
    let b = IdentId(2);
    let graph = ScopeGraph {
        scopes: vec![
            item_scope(
                ItemKind::Mod,
                Some(IdentId(0)),
                vec![
                    Edge { dest: ScopeId(1), kind: EdgeKind::Type(a) },
                    Edge { dest: ScopeId(2), kind: EdgeKind::Type(b) },
                ],
            ),
            item_scope(ItemKind::Struct, Some(a), vec![]),
            item_scope(ItemKind::Struct, Some(b), vec![]),
        ],
        special: specials(),
    };
    let importer = empty_importer();
    let env = empty_env();
    let vis = VisibilityTable {
        default_visible: true,
        exceptions: vec![(VisTarget::Scope(ScopeId(2)), ScopeId(0))],
    };
    let resolver = NameResolver::new(&graph, &importer, &env, &vis);
    let collected =
        resolver.collect_all_resolutions_for_glob(ScopeId(0), ScopeId(0), &Vec::new());
    assert!(collected.iter().any(|(n, _)| *n == a));
    assert!(!collected.iter().any(|(n, _)| *n == b));
}

/// Adding a named import for one identifier never removes another
/// identifier's entries from the glob collection.
#[test]
fn glob_collection_is_monotone_under_named_imports() {
    let x = IdentId(1);
    let y = IdentId(2);
    let graph = ScopeGraph {
        scopes: vec![
            item_scope(
                ItemKind::Mod,
                Some(IdentId(0)),
                vec![Edge { dest: ScopeId(1), kind: EdgeKind::Type(y) }],
            ),
            item_scope(ItemKind::Struct, Some(y), vec![]),
            item_scope(ItemKind::Struct, Some(x), vec![]),
        ],
        special: specials(),
    };
    let env = empty_env();
    let vis = all_visible();

    let importer1 = Importer { named: vec![(ScopeId(0), vec![])], globs: Vec::new() };
    let resolver1 = NameResolver::new(&graph, &importer1, &env, &vis);
    let before = resolver1.collect_all_resolutions_for_glob(ScopeId(0), ScopeId(0), &Vec::new());

    let mut imported = NameResBucket::new();
    imported.push(&NameRes {
        kind: NameResKind::Scope(ScopeId(2)),
        domain: NameDomain::type_dom(),
        derivation: NameDerivation::NamedImported(UseId(3)),
    });
    let importer2 = Importer { named: vec![(ScopeId(0), vec![(x, imported)])], globs: Vec::new() };
    let resolver2 = NameResolver::new(&graph, &importer2, &env, &vis);
    let after = resolver2.collect_all_resolutions_for_glob(ScopeId(0), ScopeId(0), &Vec::new());

    let before_y: Vec<_> = before.iter().filter(|(n, _)| *n == y).collect();
    let after_y: Vec<_> = after.iter().filter(|(n, _)| *n == y).collect();
    assert_eq!(before_y.len(), 1);
    assert_eq!(after_y.len(), 1);
    assert_eq!(before_y[0].1.len(), after_y[0].1.len());
    assert_eq!(before_y[0].1[0].kind, after_y[0].1[0].kind);
    // The new identifier's entry is added alongside.
    assert!(after.iter().any(|(n, _)| *n == x));
}

/// Visibility unwraps lexical derivations down to the underlying one.
#[test]
fn visibility_unwraps_lexical_derivations() {
    let res = NameRes {
        kind: NameResKind::Scope(ScopeId(4)),
        domain: NameDomain::type_dom(),
        derivation: NameDerivation::Lex(Box::new(NameDerivation::Lex(Box::new(
            NameDerivation::NamedImported(UseId(6)),
        )))),
    };
    let vis = VisibilityTable {
        default_visible: true,
        exceptions: vec![(VisTarget::Use(UseId(6)), ScopeId(0))],
    };
    assert!(!res.is_visible(&vis, ScopeId(0)));
    assert!(res.is_visible(&vis, ScopeId(1)));
}

/// The default directive allows everything; `disallow_lex` switches off
/// only the lexical tier.
#[test]
fn directive_switches() {
    let d = QueryDirective::new();
    assert!(d.allow_lex && d.allow_external && d.allow_glob);
    let d2 = d.disallow_lex();
    assert!(!d2.allow_lex && d2.allow_external && d2.allow_glob);
    let d3 = d.disallow_external();
    assert!(d3.allow_lex && !d3.allow_external && d3.allow_glob);
    let d4 = d.disallow_glob();
    assert!(d4.allow_lex && d4.allow_external && !d4.allow_glob);
}

/// External ingots and builtins only answer when the directive allows
/// external fallback, and an ingot outranks a builtin of the same name.
#[test]
fn external_and_builtin_tiers() {
    let x = IdentId(1);
    let graph = ScopeGraph {
        scopes: vec![
            item_scope(ItemKind::Mod, Some(IdentId(0)), vec![]),
            item_scope(ItemKind::TopMod, Some(x), vec![]),
        ],
        special: specials(),
    };
    let importer = empty_importer();
    let env = ExternalEnv {
        external_ingots: vec![(x, ScopeId(1))],
        prims: vec![(x, PrimTy(3))],
    };
    let vis = all_visible();
    let resolver = NameResolver::new(&graph, &importer, &env, &vis);

    let with_external =
        resolver.resolve_query(&EarlyNameQueryId::new(x, ScopeId(0), QueryDirective::new()));
    let res = with_external.pick(NameDomain::type_dom()).expect("x should resolve");
    assert!(matches!(res.derivation, NameDerivation::External));

    let without_external = resolver.resolve_query(&EarlyNameQueryId::new(
        x,
        ScopeId(0),
        QueryDirective::new().disallow_external(),
    ));
    assert!(matches!(
        without_external.pick(NameDomain::type_dom()),
        Err(NameResolutionError::NotFound)
    ));
}

/// A builtin alone resolves with the `Prim` derivation, and shows its name.
#[test]
fn builtin_resolution_and_pretty_path() {
    let x = IdentId(1);
    let graph = ScopeGraph {
        scopes: vec![item_scope(ItemKind::Mod, Some(IdentId(0)), vec![])],
        special: specials(),
    };
    let importer = empty_importer();
    let env = ExternalEnv { external_ingots: Vec::new(), prims: vec![(x, PrimTy(3))] };
    let vis = all_visible();
    let resolver = NameResolver::new(&graph, &importer, &env, &vis);
    let bucket =
        resolver.resolve_query(&EarlyNameQueryId::new(x, ScopeId(0), QueryDirective::new()));
    let res = bucket.pick(NameDomain::type_dom()).expect("x should resolve");
    assert!(matches!(res.derivation, NameDerivation::Prim));
    assert!(matches!(res.kind, NameResKind::Prim(PrimTy(3))));
    assert!(res.scope().is_none());

    let tbl = fe_analysis::IdentTable {
        names: vec![String::from("mod_name"), String::from("u256")],
    };
    assert_eq!(res.pretty_path(&graph, &env, &tbl), Some(String::from("u256")));
    assert_eq!(res.kind.name(&graph, &env), x);
}

/// Restricting a bucket to a single-capability domain keeps only that
/// slot; an empty domain keeps everything.
#[test]
fn filter_by_domain_keeps_one_slot() {
    let ty_res = NameRes {
        kind: NameResKind::Scope(ScopeId(10)),
        domain: NameDomain::type_dom(),
        derivation: NameDerivation::Def,
    };
    let val_res = NameRes {
        kind: NameResKind::Scope(ScopeId(11)),
        domain: NameDomain::value_dom(),
        derivation: NameDerivation::Def,
    };
    let mut bucket = NameResBucket::new();
    bucket.push(&ty_res);
    bucket.push(&val_res);
    bucket.filter_by_domain(NameDomain::value_dom());
    assert_eq!(bucket.len(), 1);
    assert!(bucket.pick(NameDomain::type_dom()).is_err());
    assert!(matches!(
        bucket.pick(NameDomain::value_dom()).unwrap().kind,
        NameResKind::Scope(ScopeId(11))
    ));

    let mut untouched = NameResBucket::new();
    untouched.push(&ty_res);
    untouched.filter_by_domain(NameDomain::invalid());
    assert_eq!(untouched.len(), 1);
}

/// A bucket made from one resolution holds it in that resolution's domain.
#[test]
fn bucket_from_single_resolution() {
    let res = NameRes {
        kind: NameResKind::Scope(ScopeId(10)),
        domain: NameDomain::value_dom(),
        derivation: NameDerivation::Def,
    };
    let bucket = NameResBucket::from_res(res);
    assert!(!bucket.is_empty());
    assert!(bucket.pick(NameDomain::type_dom()).is_err());
    assert!(bucket.pick(NameDomain::value_dom()).is_ok());
    assert_eq!(bucket.errors().len(), 0);
    assert_eq!(bucket.iter_ok().len(), 1);
}

/// Merging carries another bucket's errors onto empty slots; resolutions
/// present in both sides keep the winner by derivation.
#[test]
fn merge_carries_errors_and_resolutions() {
    let mut target = NameResBucket::new();
    let mut other = NameResBucket::new();
    other.type_slot = Some(Err(NameResolutionError::Invisible(None)));
    other.push(&NameRes {
        kind: NameResKind::Scope(ScopeId(10)),
        domain: NameDomain::value_dom(),
        derivation: NameDerivation::GlobImported(UseId(1)),
    });
    target.merge(&other);
    assert!(matches!(
        target.pick(NameDomain::type_dom()),
        Err(NameResolutionError::Invisible(None))
    ));
    assert!(target.pick(NameDomain::value_dom()).is_ok());
    assert_eq!(target.errors().len(), 1);

    // The same error does not displace a live resolution.
    let mut occupied = NameResBucket::new();
    occupied.push(&NameRes {
        kind: NameResKind::Scope(ScopeId(11)),
        domain: NameDomain::type_dom(),
        derivation: NameDerivation::Def,
    });
    occupied.merge(&other);
    assert!(occupied.pick(NameDomain::type_dom()).is_ok());
}

/// The classifying views of a resolution follow the resolved scope's kind.
#[test]
fn resolution_classification() {
    let graph = ScopeGraph {
        scopes: vec![
            item_scope(ItemKind::Enum, Some(IdentId(1)), vec![]),
            item_scope(ItemKind::Trait(TraitId(5)), Some(IdentId(2)), vec![]),
            item_scope(ItemKind::Mod, Some(IdentId(3)), vec![]),
            item_scope(ItemKind::Func, Some(IdentId(4)), vec![]),
        ],
        special: specials(),
    };
    let mk = |s: u32, d: NameDomain| NameRes {
        kind: NameResKind::Scope(ScopeId(s)),
        domain: d,
        derivation: NameDerivation::Def,
    };
    let enum_res = mk(0, NameDomain::type_dom());
    assert!(enum_res.is_type(&graph));
    assert!(enum_res.is_enum(&graph));
    assert!(!enum_res.is_mod(&graph));
    assert_eq!(enum_res.scope(), Some(ScopeId(0)));

    let trait_res = mk(1, NameDomain::type_dom());
    assert!(trait_res.is_trait(&graph));
    assert_eq!(trait_res.trait_(&graph), Some(TraitId(5)));
    assert!(!trait_res.is_value(&graph));

    let mod_res = mk(2, NameDomain::type_dom());
    assert!(mod_res.is_mod(&graph));

    let func_res = mk(3, NameDomain::value_dom());
    assert!(func_res.is_value(&graph));
    assert!(func_res.is_importable());
}
