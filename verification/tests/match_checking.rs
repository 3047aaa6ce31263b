use fe_analysis::check_match::check_match_exhaustiveness;
use fe_analysis::pattern::{ConstructorKind, SimplifiedPattern, SimplifiedPatternKind};
use fe_analysis::name_res::VisibilityTable;
use fe_analysis::resolver::{ExternalEnv, Importer, NameResolver};
use fe_analysis::scope_graph::{
    Edge, EdgeKind, ItemKind, Scope, ScopeGraph, ScopeId, ScopeKind, SpecialIdents,
};
use fe_analysis::simplify::Pattern;
use fe_analysis::types::{
    EnumDef, EnumVariantId, TypeCatalog, TypeDef, TypeId, VariantDef, VariantKind,
};
use fe_analysis::{IdentId, IdentTable, SpanId};

// Identifier ids used across the fixtures.
const COLOR: u32 = 0;
const RED: u32 = 1;
const GREEN: u32 = 2;
const BLUE: u32 = 3;
const OPTION: u32 = 4;
const SOME: u32 = 5;
const NONE_N: u32 = 6;
const INT: u32 = 7;
const VOID: u32 = 8;

fn idents() -> IdentTable {
    IdentTable {
        names: vec![
            String::from("Color"),
            String::from("Red"),
            String::from("Green"),
            String::from("Blue"),
            String::from("Option"),
            String::from("Some"),
            String::from("None"),
            String::from("int"),
            String::from("Void"),
        ],
    }
}

/// Type 0: enum Color { Red, Green, Blue }. Type 1: enum Option { Some(int),
/// None }. Type 2: int (opaque). Type 3: enum Void {} with no variants.
fn catalog() -> TypeCatalog {
    TypeCatalog {
        types: vec![
            TypeDef::Enum(EnumDef {
                name: IdentId(COLOR),
                variants: vec![
                    VariantDef { name: IdentId(RED), kind: VariantKind::Unit },
                    VariantDef { name: IdentId(GREEN), kind: VariantKind::Unit },
                    VariantDef { name: IdentId(BLUE), kind: VariantKind::Unit },
                ],
            }),
            TypeDef::Enum(EnumDef {
                name: IdentId(OPTION),
                variants: vec![
                    VariantDef { name: IdentId(SOME), kind: VariantKind::Tuple(vec![TypeId(2)]) },
                    VariantDef { name: IdentId(NONE_N), kind: VariantKind::Unit },
                ],
            }),
            TypeDef::Other,
            TypeDef::Enum(EnumDef { name: IdentId(VOID), variants: vec![] }),
        ],
    }
}

fn specials() -> SpecialIdents {
    SpecialIdents {
        super_kw: IdentId(100),
        ingot_kw: IdentId(101),
        self_value_kw: IdentId(102),
        self_ty_kw: IdentId(103),
    }
}

/// Scope 0 is the match scope; scopes 1.. are the variant scopes, reachable
/// by value edges under their bare names.
fn graph() -> ScopeGraph {
    let variant = |vid: EnumVariantId, name: u32| Scope {
        kind: ScopeKind::Variant(vid),
        name: Some(IdentId(name)),
        name_span: None,
        edges: vec![],
        params: vec![],
    };
    ScopeGraph {
        scopes: vec![
            Scope {
                kind: ScopeKind::Item(ItemKind::Func),
                name: None,
                name_span: None,
                edges: vec![
                    Edge { dest: ScopeId(1), kind: EdgeKind::Value(IdentId(RED)) },
                    Edge { dest: ScopeId(2), kind: EdgeKind::Value(IdentId(GREEN)) },
                    Edge { dest: ScopeId(3), kind: EdgeKind::Value(IdentId(BLUE)) },
                    Edge { dest: ScopeId(4), kind: EdgeKind::Value(IdentId(SOME)) },
                    Edge { dest: ScopeId(5), kind: EdgeKind::Value(IdentId(NONE_N)) },
                ],
                params: vec![],
            },
            variant(EnumVariantId { ty: TypeId(0), idx: 0 }, RED),
            variant(EnumVariantId { ty: TypeId(0), idx: 1 }, GREEN),
            variant(EnumVariantId { ty: TypeId(0), idx: 2 }, BLUE),
            variant(EnumVariantId { ty: TypeId(1), idx: 0 }, SOME),
            variant(EnumVariantId { ty: TypeId(1), idx: 1 }, NONE_N),
        ],
        special: specials(),
    }
}

fn check(arms: Vec<Pattern>, ty: TypeId) -> Result<(), fe_analysis::check_match::Diagnostic> {
    let g = graph();
    let importer = Importer { named: vec![], globs: vec![] };
    let env = ExternalEnv { external_ingots: vec![], prims: vec![] };
    let vis = VisibilityTable { default_visible: true, exceptions: vec![] };
    let resolver = NameResolver::new(&g, &importer, &env, &vis);
    let cat = catalog();
    let tbl = idents();
    check_match_exhaustiveness(&resolver, &cat, &tbl, ScopeId(0), &arms, SpanId(42), ty)
}

/// Arms `[Red, Green]` over `Color` fail with witness `Color::Blue`.
#[test]
fn color_missing_blue() {
    let arms = vec![Pattern::Path(IdentId(RED)), Pattern::Path(IdentId(GREEN))];
    let d = check(arms, TypeId(0)).unwrap_err();
    assert_eq!(d.message, "patterns is not exhaustive");
    assert_eq!(d.label, "`Color::Blue` not covered");
    assert_eq!(d.span, SpanId(42));
}

/// Arms `[Red, Green, Blue]` over `Color` are exhaustive.
#[test]
fn color_all_variants_covered() {
    let arms = vec![
        Pattern::Path(IdentId(RED)),
        Pattern::Path(IdentId(GREEN)),
        Pattern::Path(IdentId(BLUE)),
    ];
    assert!(check(arms, TypeId(0)).is_ok());
}

/// Arms `[Red, _]` over `Color` are exhaustive.
#[test]
fn color_wildcard_covers_rest() {
    let arms = vec![Pattern::Path(IdentId(RED)), Pattern::WildCard];
    assert!(check(arms, TypeId(0)).is_ok());
}

/// A duplicate arm neither helps nor hurts: `[Red, Green, Red]` still
/// misses `Blue`, and the sigma set deduplicates the repeated constructor.
#[test]
fn color_duplicate_arm_still_missing_blue() {
    let arms = vec![
        Pattern::Path(IdentId(RED)),
        Pattern::Path(IdentId(GREEN)),
        Pattern::Path(IdentId(RED)),
    ];
    let d = check(arms, TypeId(0)).unwrap_err();
    assert_eq!(d.label, "`Color::Blue` not covered");
}

/// Arms `[Red, Green, Blue, Red]` stay exhaustive: the repeated
/// constructor is counted once when the sigma set is compared with the
/// variant count.
#[test]
fn color_duplicates_do_not_break_completeness() {
    let arms = vec![
        Pattern::Path(IdentId(RED)),
        Pattern::Path(IdentId(GREEN)),
        Pattern::Path(IdentId(BLUE)),
        Pattern::Path(IdentId(RED)),
    ];
    assert!(check(arms, TypeId(0)).is_ok());
}

/// An or-pattern arm `Red | Green | Blue` is exhaustive over `Color`.
#[test]
fn color_or_pattern_covers() {
    let arms = vec![Pattern::Or(vec![
        Pattern::Path(IdentId(RED)),
        Pattern::Path(IdentId(GREEN)),
        Pattern::Path(IdentId(BLUE)),
    ])];
    assert!(check(arms, TypeId(0)).is_ok());
}

/// An or-pattern arm `Red | Green` misses `Blue`.
#[test]
fn color_or_pattern_missing_blue() {
    let arms = vec![Pattern::Or(vec![
        Pattern::Path(IdentId(RED)),
        Pattern::Path(IdentId(GREEN)),
    ])];
    let d = check(arms, TypeId(0)).unwrap_err();
    assert_eq!(d.label, "`Color::Blue` not covered");
}

/// The lone arm `Some(x)` over `Option` fails with witness `Option::None`.
#[test]
fn option_missing_none() {
    let arms = vec![Pattern::PathTuple(IdentId(SOME), vec![Pattern::WildCard])];
    let d = check(arms, TypeId(1)).unwrap_err();
    assert_eq!(d.label, "`Option::None` not covered");
}

/// `[Some(x), None]` over `Option` is exhaustive.
#[test]
fn option_fully_covered() {
    let arms = vec![
        Pattern::PathTuple(IdentId(SOME), vec![Pattern::WildCard]),
        Pattern::Path(IdentId(NONE_N)),
    ];
    assert!(check(arms, TypeId(1)).is_ok());
}

/// A `match` with no arms at all fails immediately, whatever the scrutinee
/// type.
#[test]
fn zero_arms_fail_immediately() {
    let d = check(Vec::new(), TypeId(0)).unwrap_err();
    assert_eq!(d.message, "patterns is not exhaustive");
    assert_eq!(d.label, "expected at least one match arm here");
    let d2 = check(Vec::new(), TypeId(2)).unwrap_err();
    assert_eq!(d2.message, "patterns is not exhaustive");
}

/// A lone wildcard arm is exhaustive for any enum, a zero-variant enum
/// included.
#[test]
fn lone_wildcard_is_exhaustive() {
    assert!(check(vec![Pattern::WildCard], TypeId(0)).is_ok());
    assert!(check(vec![Pattern::WildCard], TypeId(1)).is_ok());
    assert!(check(vec![Pattern::WildCard], TypeId(3)).is_ok());
}

/// A witness with several missing variants renders them as alternatives.
#[test]
fn several_missing_variants_render_as_alternatives() {
    let arms = vec![Pattern::Path(IdentId(RED))];
    let d = check(arms, TypeId(0)).unwrap_err();
    assert_eq!(d.label, "`Color::Green| Color::Blue` not covered");
}

/// Rendering a simplified pattern spells nested constructors out.
#[test]
fn format_renders_constructor_syntax() {
    let cat = catalog();
    let tbl = idents();
    let some_wild = SimplifiedPattern {
        kind: SimplifiedPatternKind::Constructor {
            kind: ConstructorKind::Variant(EnumVariantId { ty: TypeId(1), idx: 0 }),
            fields: vec![SimplifiedPattern {
                kind: SimplifiedPatternKind::WildCard,
                ty: TypeId(2),
            }],
        },
        ty: TypeId(1),
    };
    assert_eq!(some_wild.format(&cat, &tbl), "Option::Some(_)");
    let none_pat = SimplifiedPattern {
        kind: SimplifiedPatternKind::Constructor {
            kind: ConstructorKind::Variant(EnumVariantId { ty: TypeId(1), idx: 1 }),
            fields: vec![],
        },
        ty: TypeId(1),
    };
    assert_eq!(none_pat.format(&cat, &tbl), "Option::None");
}
