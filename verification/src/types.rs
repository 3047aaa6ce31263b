//! The external type catalog, as the exhaustiveness checker sees it: for a
//! type id, whether it is an enum, and for an enum its variants with their
//! names and field types.

use vstd::prelude::*;

use crate::IdentId;

verus! {

/// A stable small identifier for a type in the external catalog.
#[derive(Clone, Copy, Debug, PartialEq, Eq, Structural, Hash)]
pub struct TypeId(pub u32);

/// A stable identifier for an enum variant: the enum's type id and the
/// variant's position among that enum's variants.
#[derive(Clone, Copy, Debug, PartialEq, Eq, Structural, Hash)]
pub struct EnumVariantId {
    /// The enum type this variant belongs to.
    pub ty: TypeId,
    /// The variant's index in the enum's variant list.
    pub idx: u32,
}

/// What a variant carries: nothing, or a tuple of field types.
#[derive(Clone, Debug, PartialEq, Eq)]
pub enum VariantKind {
    Unit,
    Tuple(Vec<TypeId>),
}

/// One variant of an enum definition.
#[derive(Clone, Debug, PartialEq, Eq)]
pub struct VariantDef {
    pub name: IdentId,
    pub kind: VariantKind,
}

/// An enum definition: its name and its variants, in declaration order.
#[derive(Clone, Debug, PartialEq, Eq)]
pub struct EnumDef {
    pub name: IdentId,
    pub variants: Vec<VariantDef>,
}

/// What the catalog knows of one type id.
#[derive(Clone, Debug, PartialEq, Eq)]
pub enum TypeDef {
    /// An enum with its definition; the only kind the exhaustiveness checker
    /// inspects.
    Enum(EnumDef),
    /// Any other type; opaque to this core.
    Other,
}

/// The table of type definitions, indexed by [`TypeId`]. Supplied by the
/// surrounding compiler once per compilation unit and read-only here.
pub struct TypeCatalog {
    pub types: Vec<TypeDef>,
}

impl TypeCatalog {
    /// Well-formedness of the catalog: no enum declares more variants than
    /// a variant index can address.
    pub open spec fn wf(self) -> bool {
        forall|t: int|
            0 <= t < self.types@.len() ==> ((#[trigger] self.types@[t]) is Enum
                ==> self.types@[t]->Enum_0.variants@.len() < 0x1_0000_0000)
    }

    /// Whether `ty` is a valid index into this catalog.
    pub open spec fn holds(self, ty: TypeId) -> bool {
        ty.0 < self.types@.len()
    }

    /// The definition recorded for `ty`.
    pub open spec fn spec_def(self, ty: TypeId) -> TypeDef {
        self.types@[ty.0 as int]
    }

    /// Whether `ty` is an enum in this catalog.
    pub open spec fn spec_is_enum(self, ty: TypeId) -> bool {
        self.spec_def(ty) is Enum
    }

    /// The variants of the enum `ty`.
    pub open spec fn spec_variants(self, ty: TypeId) -> Seq<VariantDef>
        recommends
            self.holds(ty),
            self.spec_is_enum(ty),
    {
        self.spec_def(ty)->Enum_0.variants@
    }

    /// Whether `v` names an actual variant of an enum of this catalog.
    pub open spec fn holds_variant(self, v: EnumVariantId) -> bool {
        &&& self.holds(v.ty)
        &&& self.spec_is_enum(v.ty)
        &&& v.idx < self.spec_variants(v.ty).len()
    }

    /// The field types of the variant `v`: empty for a unit variant.
    pub open spec fn spec_field_types(self, v: EnumVariantId) -> Seq<TypeId>
        recommends
            self.holds_variant(v),
    {
        match self.spec_variants(v.ty)[v.idx as int].kind {
            VariantKind::Unit => Seq::empty(),
            VariantKind::Tuple(tys) => tys@,
        }
    }

    /// The definition recorded for `ty`.
    pub fn type_def(&self, ty: TypeId) -> (r: &TypeDef)
        requires
            self.holds(ty),
        ensures
            *r == self.spec_def(ty),
    {
        &self.types[ty.0 as usize]
    }

    /// How many variants the enum `ty` has.
    pub fn variant_count(&self, ty: TypeId) -> (r: usize)
        requires
            self.holds(ty),
            self.spec_is_enum(ty),
        ensures
            r == self.spec_variants(ty).len(),
    {
        match self.type_def(ty) {
            TypeDef::Enum(def) => def.variants.len(),
            TypeDef::Other => {
                proof {
                    assert(false);
                }
                0
            },
        }
    }

    /// The definition of the variant `v`.
    pub fn variant_def(&self, v: EnumVariantId) -> (r: &VariantDef)
        requires
            self.holds_variant(v),
        ensures
            *r == self.spec_variants(v.ty)[v.idx as int],
    {
        match self.type_def(v.ty) {
            TypeDef::Enum(def) => &def.variants[v.idx as usize],
            TypeDef::Other => vstd::pervasive::unreached(),
        }
    }
}

} // verus!
