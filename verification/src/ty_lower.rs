//! Lowering of generic parameter declarations into interned types: the
//! precursor form a declaration is collected into, and the evaluated
//! parameter set an item exposes.

use vstd::prelude::*;

use crate::fold::{ConstTyData, Kind, TyData, TyId, TyParam, TyStore};
use crate::scope_graph::ScopeId;
use crate::IdentId;

verus! {

/// A generic parameter before evaluation: its name (absent when the
/// declaration failed to parse), its position in the declaration (absent
/// for a trait's implicit `Self`), its declared kind, and, for a const
/// parameter, the type of its values (absent when that type failed to
/// lower).
#[derive(Debug)]
pub struct TyParamPrecursor {
    pub name: Option<IdentId>,
    pub original_idx: Option<usize>,
    pub kind: Option<Kind>,
    pub const_ty_ty: Option<TyId>,
    pub is_const_ty: bool,
}

/// What evaluating a precursor appends to the arena and hands back.
pub open spec fn spec_evaluated(
    store: TyStore,
    p: TyParamPrecursor,
    scope: ScopeId,
    lowered_idx: usize,
) -> TyData {
    match p.name {
        None => TyData::Invalid,
        Some(name) => {
            let kind = match p.kind {
                Some(k) => k,
                None => Kind::Star,
            };
            if p.original_idx is None {
                TyData::TyParam(TyParam { name, idx: None, kind, scope })
            } else if !p.is_const_ty {
                TyData::TyParam(TyParam { name, idx: Some(lowered_idx), kind, scope })
            } else {
                TyData::ConstTy(crate::fold::ConstTyId((store.const_tys@.len()) as u32))
            }
        },
    }
}

impl TyParamPrecursor {
    /// Evaluates the precursor into an interned type: a nameless precursor
    /// becomes the invalid type; a trait's implicit `Self` a positionless
    /// parameter; an ordinary parameter carries its lowered position; a
    /// const parameter wraps its parameter in a const type, of its declared
    /// value type where one lowered and of the invalid type otherwise.
    pub fn evaluate(&self, store: &mut TyStore, scope: ScopeId, lowered_idx: usize) -> (r: TyId)
        requires
            old(store).tys@.len() < 0x1_0000_0000 - 4,
            old(store).const_tys@.len() < 0x1_0000_0000 - 4,
        ensures
            final(store).extends(*old(store)),
            final(store).holds(r),
            final(store).tys@.len() <= old(store).tys@.len() + 2,
            final(store).const_tys@.len() <= old(store).const_tys@.len() + 1,
            final(store).tys@[r.0 as int] == spec_evaluated(
                *old(store),
                *self,
                scope,
                lowered_idx,
            ),
    {
        let name = match &self.name {
            None => {
                return store.invalid();
            },
            Some(n) => *n,
        };
        let kind = match &self.kind {
            Some(k) => k.deep_clone(),
            None => Kind::Star,
        };
        if self.original_idx.is_none() {
            let param = TyParam { name, idx: None, kind, scope };
            return store.mk_ty(TyData::TyParam(param));
        }
        let param = TyParam { name, idx: Some(lowered_idx), kind, scope };
        if !self.is_const_ty {
            return store.mk_ty(TyData::TyParam(param));
        }
        let const_ty_ty = match self.const_ty_ty {
            Some(t) => if (t.0 as usize) < store.tys.len() {
                t
            } else {
                store.invalid()
            },
            None => store.invalid(),
        };
        let c = store.mk_const_ty(ConstTyData::TyParam(param, const_ty_ty));
        proof {
            assert(c == crate::fold::ConstTyId((old(store).const_tys@.len()) as u32));
        }
        store.const_ty(c)
    }

    /// The precursor of an ordinary type parameter.
    pub fn ty_param(name: Option<IdentId>, idx: usize, kind: Option<Kind>) -> (r: TyParamPrecursor)
        ensures
            r.name == name,
            r.original_idx == Some(idx),
            r.kind == kind,
            r.const_ty_ty is None,
            !r.is_const_ty,
    {
        TyParamPrecursor { name, original_idx: Some(idx), kind, const_ty_ty: None, is_const_ty: false }
    }

    /// The precursor of a const parameter with its declared value type.
    pub fn const_ty_param(name: Option<IdentId>, idx: usize, ty: Option<TyId>) -> (r:
        TyParamPrecursor)
        ensures
            r.name == name,
            r.original_idx == Some(idx),
            r.kind is None,
            r.const_ty_ty == ty,
            r.is_const_ty,
    {
        TyParamPrecursor { name, original_idx: Some(idx), kind: None, const_ty_ty: ty, is_const_ty: true }
    }

    /// The precursor of a trait's implicit `Self` parameter.
    pub fn trait_self(self_name: IdentId, kind: Option<Kind>) -> (r: TyParamPrecursor)
        ensures
            r.name == Some(self_name),
            r.original_idx is None,
            r.kind == kind,
            !r.is_const_ty,
    {
        TyParamPrecursor {
            name: Some(self_name),
            original_idx: None,
            kind,
            const_ty_ty: None,
            is_const_ty: false,
        }
    }

    /// Whether the precursor is a trait's implicit `Self`.
    pub fn is_trait_self(&self) -> (r: bool)
        ensures
            r == (self.original_idx is None),
    {
        self.original_idx.is_none()
    }
}

/// The generic parameters an item declares, in precursor form: the owner's
/// scope, and how many implicit parameters precede the explicit ones.
#[derive(Debug)]
pub struct GenericParamTypeSet {
    pub params_precursor: Vec<TyParamPrecursor>,
    pub scope: ScopeId,
    pub offset_to_explicit: usize,
}

impl GenericParamTypeSet {
    /// The set with no parameters.
    pub fn empty(scope: ScopeId) -> (r: GenericParamTypeSet)
        ensures
            r.params_precursor@.len() == 0,
            r.scope == scope,
            r.offset_to_explicit == 0,
    {
        GenericParamTypeSet { params_precursor: Vec::new(), scope, offset_to_explicit: 0 }
    }

    /// How many parameters the set declares.
    pub fn len(&self) -> (r: usize)
        ensures
            r == self.params_precursor@.len(),
    {
        self.params_precursor.len()
    }

    /// Where the explicit parameters start.
    pub fn offset_to_explicit_params_position(&self) -> (r: usize)
        ensures
            r == self.offset_to_explicit,
    {
        self.offset_to_explicit
    }

    /// Evaluates every parameter, in declaration order.
    pub fn params(&self, store: &mut TyStore) -> (r: Vec<TyId>)
        requires
            old(store).tys@.len() + 4 * self.params_precursor@.len() < 0x1_0000_0000 - 8,
            old(store).const_tys@.len() + 4 * self.params_precursor@.len() < 0x1_0000_0000 - 8,
        ensures
            final(store).extends(*old(store)),
            r@.len() == self.params_precursor@.len(),
            forall|i: int| 0 <= i < r@.len() ==> final(store).holds(#[trigger] r@[i]),
    {
        let mut out: Vec<TyId> = Vec::new();
        let mut i: usize = 0;
        while i < self.params_precursor.len()
            invariant
                0 <= i <= self.params_precursor@.len(),
                store.tys@.len() <= old(store).tys@.len() + 4 * i,
                store.const_tys@.len() <= old(store).const_tys@.len() + 4 * i,
                old(store).tys@.len() + 4 * self.params_precursor@.len() < 0x1_0000_0000 - 8,
                old(store).const_tys@.len() + 4 * self.params_precursor@.len() < 0x1_0000_0000 - 8,
                store.extends(*old(store)),
                out@.len() == i,
                forall|k: int| 0 <= k < i ==> store.holds(#[trigger] out@[k]),
            decreases self.params_precursor@.len() - i,
        {
            let ghost mid = *store;
            let t = self.params_precursor[i].evaluate(store, self.scope, i);
            proof {
                lemma_extends_transitive(*old(store), mid, *store);
                assert forall|k: int| 0 <= k < i implies store.holds(#[trigger] out@[k]) by {}
            }
            out.push(t);
            i = i + 1;
        }
        out
    }

    /// Evaluates the explicit parameters only.
    pub fn explicit_params(&self, store: &mut TyStore) -> (r: Vec<TyId>)
        requires
            old(store).tys@.len() + 4 * self.params_precursor@.len() < 0x1_0000_0000 - 8,
            old(store).const_tys@.len() + 4 * self.params_precursor@.len() < 0x1_0000_0000 - 8,
            self.offset_to_explicit <= self.params_precursor@.len(),
        ensures
            final(store).extends(*old(store)),
            r@.len() == self.params_precursor@.len() - self.offset_to_explicit,
            forall|i: int| 0 <= i < r@.len() ==> final(store).holds(#[trigger] r@[i]),
    {
        let all = self.params(store);
        let mut out: Vec<TyId> = Vec::new();
        let mut i: usize = self.offset_to_explicit;
        while i < all.len()
            invariant
                self.offset_to_explicit <= i <= all@.len(),
                all@.len() == self.params_precursor@.len(),
                forall|k: int| 0 <= k < all@.len() ==> store.holds(#[trigger] all@[k]),
                out@.len() == i - self.offset_to_explicit,
                forall|k: int| 0 <= k < out@.len() ==> store.holds(#[trigger] out@[k]),
            decreases all@.len() - i,
        {
            out.push(all[i]);
            i = i + 1;
        }
        out
    }

    /// The implicit `Self` type of a trait owner: the first parameter,
    /// evaluated, when it is the implicit one.
    pub fn trait_self(&self, store: &mut TyStore) -> (r: Option<TyId>)
        requires
            old(store).tys@.len() < 0x1_0000_0000 - 4,
            old(store).const_tys@.len() < 0x1_0000_0000 - 4,
        ensures
            final(store).extends(*old(store)),
            r is Some ==> self.params_precursor@.len() > 0
                && self.params_precursor@[0].original_idx is None,
            r matches Some(t) ==> final(store).holds(t),
    {
        if self.params_precursor.len() == 0 {
            return None;
        }
        if !self.params_precursor[0].is_trait_self() {
            return None;
        }
        let t = self.params_precursor[0].evaluate(store, self.scope, 0);
        Some(t)
    }

    /// The parameter at the given position among the explicit ones,
    /// evaluated at its lowered position.
    pub fn param_by_original_idx(&self, store: &mut TyStore, original_idx: usize) -> (r: Option<
        TyId,
    >)
        requires
            old(store).tys@.len() < 0x1_0000_0000 - 4,
            old(store).const_tys@.len() < 0x1_0000_0000 - 4,
            self.offset_to_explicit + original_idx < 0x1_0000_0000,
        ensures
            final(store).extends(*old(store)),
            r is Some <==> self.offset_to_explicit + original_idx
                < self.params_precursor@.len(),
            r matches Some(t) ==> final(store).holds(t),
    {
        let idx = self.offset_to_explicit + original_idx;
        if idx >= self.params_precursor.len() {
            None
        } else {
            let t = self.params_precursor[idx].evaluate(store, self.scope, idx);
            Some(t)
        }
    }
}

/// A lowered type alias: what it stands for, and the parameters it takes.
#[derive(Debug)]
pub struct TyAlias {
    pub alias_to: TyId,
    pub param_set: GenericParamTypeSet,
}

impl TyAlias {
    /// The alias's evaluated parameters, in declaration order.
    pub fn params(&self, store: &mut TyStore) -> (r: Vec<TyId>)
        requires
            old(store).tys@.len() + 4 * self.param_set.params_precursor@.len() < 0x1_0000_0000
                - 8,
            old(store).const_tys@.len() + 4 * self.param_set.params_precursor@.len()
                < 0x1_0000_0000 - 8,
        ensures
            final(store).extends(*old(store)),
            r@.len() == self.param_set.params_precursor@.len(),
            forall|i: int| 0 <= i < r@.len() ==> final(store).holds(#[trigger] r@[i]),
    {
        self.param_set.params(store)
    }
}

/// Arena extension is transitive.
pub proof fn lemma_extends_transitive(a: TyStore, b: TyStore, c: TyStore)
    requires
        b.extends(a),
        c.extends(b),
    ensures
        c.extends(a),
{
}

} // verus!
