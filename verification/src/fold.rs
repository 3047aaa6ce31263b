//! Structural folding over the interned type arena: a folder maps type ids
//! to type ids, and `TypeFoldable` pushes it through one layer of type
//! structure.

use vstd::prelude::*;

use crate::scope_graph::ScopeId;
use crate::IdentId;

verus! {

/// An interned type, identified by its index in the arena.
#[derive(Clone, Copy, Debug, PartialEq, Eq, Structural, Hash)]
pub struct TyId(pub u32);

/// An interned const type, identified by its index in the arena.
#[derive(Clone, Copy, Debug, PartialEq, Eq, Structural, Hash)]
pub struct ConstTyId(pub u32);

/// An inference variable.
#[derive(Clone, Copy, Debug, PartialEq, Eq, Structural, Hash)]
pub struct TyVar(pub u32);

/// A base (non-applied) type constructor.
#[derive(Clone, Copy, Debug, PartialEq, Eq, Structural, Hash)]
pub struct TyBase(pub u32);

/// The kind of a type: a proper type, a type-level function, or anything.
#[derive(Debug)]
pub enum Kind {
    Star,
    Abs(Box<Kind>, Box<Kind>),
    Any,
}

impl Kind {
    /// An exact copy of this kind.
    pub fn deep_clone(&self) -> (r: Kind)
        ensures
            r == *self,
        decreases *self,
    {
        match self {
            Kind::Star => Kind::Star,
            Kind::Abs(a, b) => Kind::Abs(Box::new(a.deep_clone()), Box::new(b.deep_clone())),
            Kind::Any => Kind::Any,
        }
    }
}

impl Clone for Kind {
    /// An exact copy of this kind.
    fn clone(&self) -> (r: Kind)
        ensures
            r == *self,
    {
        self.deep_clone()
    }
}

/// A generic type parameter: its name, its position among the owner's
/// parameters (the implicit `Self` of a trait has none), its kind, and the
/// scope that owns it.
#[derive(Debug)]
pub struct TyParam {
    pub name: IdentId,
    pub idx: Option<usize>,
    pub kind: Kind,
    pub scope: ScopeId,
}

impl Clone for TyParam {
    /// An exact copy of this parameter.
    fn clone(&self) -> (r: TyParam)
        ensures
            r == *self,
    {
        TyParam { name: self.name, idx: self.idx, kind: self.kind.deep_clone(), scope: self.scope }
    }
}

/// The structure of one interned type.
#[derive(Debug)]
pub enum TyData {
    TyVar(TyVar),
    TyParam(TyParam),
    TyApp(TyId, TyId),
    TyBase(TyBase),
    ConstTy(ConstTyId),
    Never,
    Invalid,
}

impl Clone for TyData {
    /// An exact copy of this structure.
    fn clone(&self) -> (r: TyData)
        ensures
            r == *self,
    {
        match self {
            TyData::TyVar(v) => TyData::TyVar(*v),
            TyData::TyParam(p) => TyData::TyParam(p.clone()),
            TyData::TyApp(a, b) => TyData::TyApp(*a, *b),
            TyData::TyBase(b) => TyData::TyBase(*b),
            TyData::ConstTy(c) => TyData::ConstTy(*c),
            TyData::Never => TyData::Never,
            TyData::Invalid => TyData::Invalid,
        }
    }
}

/// The structure of one interned const type: a type-level value, with the
/// type it is a value of.
#[derive(Debug)]
pub enum ConstTyData {
    TyVar(TyVar, TyId),
    TyParam(TyParam, TyId),
    Evaluated(u64, TyId),
    UnEvaluated(u32),
}

impl Clone for ConstTyData {
    /// An exact copy of this structure.
    fn clone(&self) -> (r: ConstTyData)
        ensures
            r == *self,
    {
        match self {
            ConstTyData::TyVar(v, t) => ConstTyData::TyVar(*v, *t),
            ConstTyData::TyParam(p, t) => ConstTyData::TyParam(p.clone(), *t),
            ConstTyData::Evaluated(v, t) => ConstTyData::Evaluated(*v, *t),
            ConstTyData::UnEvaluated(b) => ConstTyData::UnEvaluated(*b),
        }
    }
}

/// The interning arena for types and const types. Interning only appends:
/// existing ids stay valid and keep their structure.
#[derive(Debug)]
pub struct TyStore {
    pub tys: Vec<TyData>,
    pub const_tys: Vec<ConstTyData>,
}

impl TyStore {
    /// Whether `t` is a valid type id of this arena.
    pub open spec fn holds(self, t: TyId) -> bool {
        t.0 < self.tys@.len()
    }

    /// Whether `c` is a valid const type id of this arena.
    pub open spec fn holds_const(self, c: ConstTyId) -> bool {
        c.0 < self.const_tys@.len()
    }

    /// Whether this arena extends `old` without touching what it held.
    pub open spec fn extends(self, old_store: TyStore) -> bool {
        &&& old_store.tys@.len() <= self.tys@.len()
        &&& old_store.const_tys@.len() <= self.const_tys@.len()
        &&& forall|i: int| 0 <= i < old_store.tys@.len() ==> self.tys@[i] == old_store.tys@[i]
        &&& forall|i: int|
            0 <= i < old_store.const_tys@.len() ==> self.const_tys@[i] == old_store.const_tys@[i]
    }

    /// The structure of `t`.
    pub fn ty_data(&self, t: TyId) -> (r: &TyData)
        requires
            self.holds(t),
        ensures
            *r == self.tys@[t.0 as int],
    {
        &self.tys[t.0 as usize]
    }

    /// The structure of `c`.
    pub fn const_ty_data(&self, c: ConstTyId) -> (r: &ConstTyData)
        requires
            self.holds_const(c),
        ensures
            *r == self.const_tys@[c.0 as int],
    {
        &self.const_tys[c.0 as usize]
    }

    /// Interns a type and returns its id.
    pub fn mk_ty(&mut self, d: TyData) -> (r: TyId)
        requires
            old(self).tys@.len() < 0x1_0000_0000 - 1,
        ensures
            final(self).tys@ == old(self).tys@.push(d),
            final(self).const_tys@ == old(self).const_tys@,
            final(self).extends(*old(self)),
            final(self).holds(r),
            r == TyId(old(self).tys@.len() as u32),
            final(self).tys@[r.0 as int] == d,
    {
        let id = TyId(self.tys.len() as u32);
        self.tys.push(d);
        id
    }

    /// Interns a const type and returns its id.
    pub fn mk_const_ty(&mut self, d: ConstTyData) -> (r: ConstTyId)
        requires
            old(self).const_tys@.len() < 0x1_0000_0000 - 1,
        ensures
            final(self).const_tys@ == old(self).const_tys@.push(d),
            final(self).tys@ == old(self).tys@,
            final(self).extends(*old(self)),
            final(self).holds_const(r),
            r == ConstTyId(old(self).const_tys@.len() as u32),
            final(self).const_tys@[r.0 as int] == d,
    {
        let id = ConstTyId(self.const_tys.len() as u32);
        self.const_tys.push(d);
        id
    }

    /// Interns the application of `abs` to `arg`.
    pub fn app(&mut self, abs: TyId, arg: TyId) -> (r: TyId)
        requires
            old(self).tys@.len() < 0x1_0000_0000 - 1,
        ensures
            final(self).tys@ == old(self).tys@.push(TyData::TyApp(abs, arg)),
            final(self).const_tys@ == old(self).const_tys@,
            final(self).extends(*old(self)),
            final(self).holds(r),
            final(self).tys@[r.0 as int] == TyData::TyApp(abs, arg),
    {
        self.mk_ty(TyData::TyApp(abs, arg))
    }

    /// Interns the type of a const type.
    pub fn const_ty(&mut self, c: ConstTyId) -> (r: TyId)
        requires
            old(self).tys@.len() < 0x1_0000_0000 - 1,
        ensures
            final(self).tys@ == old(self).tys@.push(TyData::ConstTy(c)),
            final(self).const_tys@ == old(self).const_tys@,
            final(self).extends(*old(self)),
            final(self).holds(r),
            final(self).tys@[r.0 as int] == TyData::ConstTy(c),
    {
        self.mk_ty(TyData::ConstTy(c))
    }

    /// Interns the invalid type, the placeholder for reported errors.
    pub fn invalid(&mut self) -> (r: TyId)
        requires
            old(self).tys@.len() < 0x1_0000_0000 - 1,
        ensures
            final(self).tys@ == old(self).tys@.push(TyData::Invalid),
            final(self).const_tys@ == old(self).const_tys@,
            final(self).extends(*old(self)),
            final(self).holds(r),
            final(self).tys@[r.0 as int] == TyData::Invalid,
    {
        self.mk_ty(TyData::Invalid)
    }
}

/// A mapping from types to types, implemented by the passes of the
/// surrounding compiler (substitution, inference-variable resolution). Any
/// folder may intern new types, but must only extend the arena and hand
/// back a valid id.
pub trait TypeFolder {
    fn fold_ty(&mut self, store: &mut TyStore, ty: TyId) -> (r: TyId)
        requires
            old(store).holds(ty),
            old(store).tys@.len() < 0x1_0000_0000 - 4,
            old(store).const_tys@.len() < 0x1_0000_0000 - 4,
        ensures
            final(store).extends(*old(store)),
            final(store).holds(r),
            final(store).tys@.len() <= old(store).tys@.len() + 1,
            final(store).const_tys@.len() <= old(store).const_tys@.len() + 1,
    ;
}

/// A value the folding traversal can be pushed through one structural layer
/// of.
pub trait TypeFoldable where Self: Sized {
    /// Folds the value's immediate sub-types with `folder`, rebuilding the
    /// value around the results.
    fn super_fold_with<F: TypeFolder>(self, store: &mut TyStore, folder: &mut F) -> (r: Self)
        requires
            self.wf_in(*old(store)),
            old(store).tys@.len() < 0x1_0000_0000 - 8,
            old(store).const_tys@.len() < 0x1_0000_0000 - 8,
        ensures
            final(store).extends(*old(store)),
            r.wf_in(*final(store)),
    ;

    /// Folds the value with `folder`; by default one structural layer.
    fn fold_with<F: TypeFolder>(self, store: &mut TyStore, folder: &mut F) -> (r: Self)
        requires
            self.wf_in(*old(store)),
            old(store).tys@.len() < 0x1_0000_0000 - 8,
            old(store).const_tys@.len() < 0x1_0000_0000 - 8,
        ensures
            final(store).extends(*old(store)),
            r.wf_in(*final(store)),
    ;

    /// Whether the value's type ids stay inside `store`.
    spec fn wf_in(self, store: TyStore) -> bool;
}

impl TypeFoldable for TyId {
    open spec fn wf_in(self, store: TyStore) -> bool {
        store.holds(self)
    }

    /// One structural layer: an application folds both sides and reapplies;
    /// a const type folds the value's type and reinterns; every leaf stays
    /// itself.
    fn super_fold_with<F: TypeFolder>(self, store: &mut TyStore, folder: &mut F) -> (r: TyId) {
        let data = store.ty_data(self).clone();
        match data {
            TyData::TyApp(abs, arg) => {
                if (abs.0 as usize) < store.tys.len() && (arg.0 as usize) < store.tys.len() {
                    let abs2 = folder.fold_ty(store, abs);
                    let arg2 = if (arg.0 as usize) < store.tys.len() {
                        folder.fold_ty(store, arg)
                    } else {
                        arg
                    };
                    store.app(abs2, arg2)
                } else {
                    self
                }
            },
            TyData::ConstTy(c) => {
                if (c.0 as usize) < store.const_tys.len() {
                    let cdata = store.const_ty_data(c).clone();
                    let folded: ConstTyData = match cdata {
                        ConstTyData::TyVar(v, t) => {
                            let t2 = if (t.0 as usize) < store.tys.len() {
                                folder.fold_ty(store, t)
                            } else {
                                t
                            };
                            ConstTyData::TyVar(v, t2)
                        },
                        ConstTyData::TyParam(p, t) => {
                            let t2 = if (t.0 as usize) < store.tys.len() {
                                folder.fold_ty(store, t)
                            } else {
                                t
                            };
                            ConstTyData::TyParam(p, t2)
                        },
                        ConstTyData::Evaluated(v, t) => {
                            let t2 = if (t.0 as usize) < store.tys.len() {
                                folder.fold_ty(store, t)
                            } else {
                                t
                            };
                            ConstTyData::Evaluated(v, t2)
                        },
                        ConstTyData::UnEvaluated(b) => ConstTyData::UnEvaluated(b),
                    };
                    let c2 = store.mk_const_ty(folded);
                    store.const_ty(c2)
                } else {
                    self
                }
            },
            _ => self,
        }
    }

    fn fold_with<F: TypeFolder>(self, store: &mut TyStore, folder: &mut F) -> (r: TyId) {
        self.super_fold_with(store, folder)
    }
}

} // verus!
