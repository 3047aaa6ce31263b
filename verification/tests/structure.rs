use fe_analysis::fold::{TyData, TyId, TyStore, TypeFoldable, TypeFolder};
use fe_analysis::module_tree::{module_tree_from_files, ModFile, ModId};
use fe_analysis::text::calculate_line_offsets;
use fe_analysis::ty_lower::{GenericParamTypeSet, TyParamPrecursor};
use fe_analysis::scope_graph::ScopeId;
use fe_analysis::IdentId;

// Path segment identifiers of the module-tree fixture.
const SRC: u32 = 0;
const LIB: u32 = 1;
const MOD1: u32 = 2;
const MOD2: u32 = 3;
const FOO: u32 = 4;
const BAR: u32 = 5;
const BAZ: u32 = 6;
const MOD3: u32 = 7;
const FLOATING: u32 = 8;

fn file(path: &[u32], top_mod: u32, name: u32) -> ModFile {
    ModFile {
        path: path.iter().map(|s| IdentId(*s)).collect(),
        top_mod: ModId(top_mod),
        mod_name: IdentId(name),
    }
}

/// The ingot layout src/lib.fe, src/mod1.fe, src/mod2.fe, src/mod1/foo.fe,
/// src/mod2/bar.fe, src/mod2/baz.fe, src/mod3/floating.fe builds the tree
/// with mod1 and mod2 under the root, foo under mod1, bar and baz under
/// mod2 in file order, and floating outside the tree.
#[test]
fn module_tree() {
    let files = vec![
        file(&[SRC, LIB], 0, LIB),
        file(&[SRC, MOD1], 1, MOD1),
        file(&[SRC, MOD2], 2, MOD2),
        file(&[SRC, MOD1, FOO], 3, FOO),
        file(&[SRC, MOD2, BAR], 4, BAR),
        file(&[SRC, MOD2, BAZ], 5, BAZ),
        file(&[SRC, MOD3, FLOATING], 6, FLOATING),
    ];
    let tree = module_tree_from_files(&files, 0);

    let root = tree.root_data();
    assert_eq!(root.top_mod, ModId(0));
    assert_eq!(root.children.len(), 2);

    for &child in &root.children {
        let child_node = tree.node_data(child);
        if child_node.top_mod == ModId(1) {
            assert_eq!(child_node.parent, Some(tree.root()));
            assert_eq!(child_node.children.len(), 1);
            assert_eq!(tree.node_data(child_node.children[0]).top_mod, ModId(3));
        } else if child_node.top_mod == ModId(2) {
            assert_eq!(child_node.parent, Some(tree.root()));
            assert_eq!(child_node.children.len(), 2);
            assert_eq!(tree.node_data(child_node.children[0]).top_mod, ModId(4));
            assert_eq!(tree.node_data(child_node.children[1]).top_mod, ModId(5));
        } else {
            panic!("unexpected child");
        }
    }

    // The floating module has no parent and is not under the root.
    let floating = tree.tree_node_data(ModId(6)).expect("floating module is in the arena");
    assert_eq!(floating.parent, None);
    assert_eq!(floating.name(), IdentId(FLOATING));
    assert_eq!(tree.all_modules().len(), 7);
    assert_eq!(tree.parent(ModId(4)), Some(ModId(2)));
    assert_eq!(tree.parent(ModId(0)), None);
    assert_eq!(tree.children(ModId(2)), vec![ModId(4), ModId(5)]);
}

/// Line offsets: the first line starts at zero, each further line after a
/// line feed; a trailing line feed opens no line, the empty text has none.
#[test]
fn line_offsets() {
    assert_eq!(calculate_line_offsets("line one\nline two"), vec![0, 9]);
    assert_eq!(calculate_line_offsets(""), Vec::<usize>::new());
    assert_eq!(calculate_line_offsets("a\n"), vec![0]);
    assert_eq!(calculate_line_offsets("a\n\nb"), vec![0, 2, 3]);
}

struct IdentityFolder;

impl TypeFolder for IdentityFolder {
    fn fold_ty(&mut self, _store: &mut TyStore, ty: TyId) -> TyId {
        ty
    }
}

/// Folding a type application rebuilds it from the folded sides; leaves
/// stay themselves.
#[test]
fn fold_rebuilds_application() {
    let mut store = TyStore { tys: Vec::new(), const_tys: Vec::new() };
    let base = store.mk_ty(TyData::TyBase(fe_analysis::fold::TyBase(0)));
    let arg = store.mk_ty(TyData::TyBase(fe_analysis::fold::TyBase(1)));
    let app = store.app(base, arg);
    let mut folder = IdentityFolder;
    let folded = app.super_fold_with(&mut store, &mut folder);
    match store.ty_data(folded) {
        TyData::TyApp(a, b) => {
            assert_eq!(*a, base);
            assert_eq!(*b, arg);
        }
        other => panic!("expected an application, got {:?}", other),
    }
    let folded_leaf = base.super_fold_with(&mut store, &mut folder);
    assert_eq!(folded_leaf, base);
}

/// Evaluating precursors: an ordinary parameter becomes a type parameter at
/// its lowered position; a nameless one becomes the invalid type; the
/// implicit `Self` has no position.
#[test]
fn precursor_evaluation() {
    let mut store = TyStore { tys: Vec::new(), const_tys: Vec::new() };
    let scope = ScopeId(0);

    let p = TyParamPrecursor::ty_param(Some(IdentId(9)), 0, None);
    let t = p.evaluate(&mut store, scope, 1);
    match store.ty_data(t) {
        TyData::TyParam(param) => {
            assert_eq!(param.name, IdentId(9));
            assert_eq!(param.idx, Some(1));
        }
        other => panic!("expected a type parameter, got {:?}", other),
    }

    let nameless = TyParamPrecursor::ty_param(None, 0, None);
    let t2 = nameless.evaluate(&mut store, scope, 0);
    assert!(matches!(store.ty_data(t2), TyData::Invalid));

    let own = TyParamPrecursor::trait_self(IdentId(10), None);
    assert!(own.is_trait_self());
    let t3 = own.evaluate(&mut store, scope, 0);
    match store.ty_data(t3) {
        TyData::TyParam(param) => assert_eq!(param.idx, None),
        other => panic!("expected a type parameter, got {:?}", other),
    }
}

/// A parameter set evaluates one type per precursor; the explicit ones
/// start at the recorded offset.
#[test]
fn generic_param_set() {
    let mut store = TyStore { tys: Vec::new(), const_tys: Vec::new() };
    let scope = ScopeId(0);
    let set = GenericParamTypeSet {
        params_precursor: vec![
            TyParamPrecursor::trait_self(IdentId(10), None),
            TyParamPrecursor::ty_param(Some(IdentId(11)), 0, None),
        ],
        scope,
        offset_to_explicit: 1,
    };
    assert_eq!(set.len(), 2);
    assert_eq!(set.offset_to_explicit_params_position(), 1);
    let all = set.params(&mut store);
    assert_eq!(all.len(), 2);
    let explicit = set.explicit_params(&mut store);
    assert_eq!(explicit.len(), 1);
    assert!(set.trait_self(&mut store).is_some());
    assert!(set.param_by_original_idx(&mut store, 0).is_some());
    assert!(set.param_by_original_idx(&mut store, 1).is_none());
}
