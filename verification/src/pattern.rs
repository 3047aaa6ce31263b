//! Simplified patterns: the canonical constructor-tree form that surface
//! match-arm patterns are lowered into, and the mathematical view the
//! exhaustiveness checker's contracts are stated over.

use vstd::prelude::*;

use crate::types::{EnumVariantId, TypeCatalog, TypeId};

verus! {

/// A constructor a pattern can match on. Only enum variants exist today; the
/// shape leaves room for further constructor kinds (tuples, literals).
#[derive(Clone, Copy, Debug, PartialEq, Eq, Structural, Hash)]
pub enum ConstructorKind {
    Variant(EnumVariantId),
}

impl ConstructorKind {
    /// Whether the constructor names an actual variant of the catalog.
    pub open spec fn spec_holds_in(self, cat: TypeCatalog) -> bool {
        match self {
            ConstructorKind::Variant(v) => cat.holds_variant(v),
        }
    }

    /// The field types of the constructor.
    pub open spec fn spec_field_types(self, cat: TypeCatalog) -> Seq<TypeId> {
        match self {
            ConstructorKind::Variant(v) => cat.spec_field_types(v),
        }
    }

    /// The type the constructor belongs to.
    pub open spec fn spec_ty(self) -> TypeId {
        match self {
            ConstructorKind::Variant(v) => v.ty,
        }
    }

    /// The declared field types of the constructor: empty for a unit
    /// variant, the tuple element types otherwise.
    pub fn field_types(&self, cat: &TypeCatalog) -> (r: Vec<TypeId>)
        requires
            self.spec_holds_in(*cat),
        ensures
            r@ == self.spec_field_types(*cat),
    {
        match self {
            ConstructorKind::Variant(v) => {
                let def = cat.variant_def(*v);
                match &def.kind {
                    crate::types::VariantKind::Unit => Vec::new(),
                    crate::types::VariantKind::Tuple(tys) => {
                        let mut out: Vec<TypeId> = Vec::new();
                        let mut i: usize = 0;
                        while i < tys.len()
                            invariant
                                0 <= i <= tys@.len(),
                                out@ =~= tys@.subrange(0, i as int),
                            decreases tys@.len() - i,
                        {
                            out.push(tys[i]);
                            i = i + 1;
                        }
                        proof {
                            assert(out@ =~= tys@);
                        }
                        out
                    },
                }
            },
        }
    }

    /// How many fields the constructor carries.
    pub fn field_len(&self, cat: &TypeCatalog) -> (r: usize)
        requires
            self.spec_holds_in(*cat),
        ensures
            r == self.spec_field_types(*cat).len(),
    {
        match self {
            ConstructorKind::Variant(v) => {
                let def = cat.variant_def(*v);
                match &def.kind {
                    crate::types::VariantKind::Unit => 0,
                    crate::types::VariantKind::Tuple(tys) => tys.len(),
                }
            },
        }
    }

    /// The type the constructor belongs to.
    pub fn ty(&self) -> (r: TypeId)
        ensures
            r == self.spec_ty(),
    {
        match self {
            ConstructorKind::Variant(v) => v.ty,
        }
    }
}

/// The shape of a simplified pattern.
#[derive(Debug)]
pub enum SimplifiedPatternKind {
    /// Matches anything; identifier bindings lower to this too.
    WildCard,
    /// Matches one constructor, with one sub-pattern per field.
    Constructor { kind: ConstructorKind, fields: Vec<SimplifiedPattern> },
    /// Matches when any alternative matches.
    Or(Vec<SimplifiedPattern>),
}

/// A lowered match-arm pattern, tagged with the type it matches against.
#[derive(Debug)]
pub struct SimplifiedPattern {
    pub kind: SimplifiedPatternKind,
    pub ty: TypeId,
}

/// The mathematical value of a simplified pattern.
#[verifier::ext_equal]
pub struct SPat {
    pub kind: SPatKind,
    pub ty: TypeId,
}

/// The mathematical value of a pattern's shape.
#[verifier::ext_equal]
pub enum SPatKind {
    Wild,
    Ctor { ctor: ConstructorKind, fields: Seq<SPat> },
    Or(Seq<SPat>),
}

/// The view of a pattern's shape.
pub open spec fn kind_view(k: SimplifiedPatternKind) -> SPatKind
    decreases k, 0int,
{
    match k {
        SimplifiedPatternKind::WildCard => SPatKind::Wild,
        SimplifiedPatternKind::Constructor { kind, fields } => SPatKind::Ctor {
            ctor: kind,
            fields: pats_view(fields@),
        },
        SimplifiedPatternKind::Or(ps) => SPatKind::Or(pats_view(ps@)),
    }
}

/// The view of one simplified pattern.
pub open spec fn pat_view(p: SimplifiedPattern) -> SPat
    decreases p, 0int,
{
    SPat { kind: kind_view(p.kind), ty: p.ty }
}

/// The views of a sequence of simplified patterns.
pub open spec fn pats_view(s: Seq<SimplifiedPattern>) -> Seq<SPat>
    decreases s, 1int,
{
    if s.len() == 0 {
        Seq::empty()
    } else {
        seq![pat_view(s[0])] + pats_view(s.drop_first())
    }
}

/// A sequence of views is as long as the sequence viewed.
pub broadcast proof fn lemma_pats_view_len(s: Seq<SimplifiedPattern>)
    ensures
        (#[trigger] pats_view(s)).len() == s.len(),
    decreases s.len(),
{
    if s.len() > 0 {
        lemma_pats_view_len(s.drop_first());
    }
}

/// A sequence of views is the element-wise view.
pub broadcast proof fn lemma_pats_view_index(s: Seq<SimplifiedPattern>, i: int)
    requires
        0 <= i < s.len(),
    ensures
        #[trigger] pats_view(s)[i] == pat_view(s[i]),
    decreases s.len(),
{
    lemma_pats_view_len(s);
    if i > 0 {
        lemma_pats_view_index(s.drop_first(), i - 1);
    }
}

impl View for SimplifiedPattern {
    type V = SPat;

    open spec fn view(&self) -> SPat {
        pat_view(*self)
    }
}

impl SimplifiedPattern {
    /// Builds a pattern from its shape and type.
    pub fn new(kind: SimplifiedPatternKind, ty: TypeId) -> (r: SimplifiedPattern)
        ensures
            r@ == pat_view(SimplifiedPattern { kind, ty }),
            r == (SimplifiedPattern { kind, ty }),
    {
        SimplifiedPattern { kind, ty }
    }

    /// The wildcard pattern of the given type.
    pub fn wild_card(ty: TypeId) -> (r: SimplifiedPattern)
        ensures
            r@ == (SPat { kind: SPatKind::Wild, ty }),
    {
        SimplifiedPattern { kind: SimplifiedPatternKind::WildCard, ty }
    }

    /// An exact copy of this pattern, equal in view.
    pub fn deep_clone(&self) -> (r: SimplifiedPattern)
        ensures
            r@ == self@,
        decreases *self,
    {
        self.clone()
    }
}

impl Clone for SimplifiedPatternKind {
    /// A copy of the shape, equal in view.
    fn clone(&self) -> (r: SimplifiedPatternKind)
        ensures
            kind_view(r) == kind_view(*self),
        decreases *self,
    {
        let r = match self {
            SimplifiedPatternKind::WildCard => SimplifiedPatternKind::WildCard,
            SimplifiedPatternKind::Constructor { kind, fields } => {
                SimplifiedPatternKind::Constructor { kind: *kind, fields: clone_pats(fields) }
            },
            SimplifiedPatternKind::Or(ps) => SimplifiedPatternKind::Or(clone_pats(ps)),
        };
        proof {
            assert(kind_view(r) =~~= kind_view(*self));
        }
        r
    }
}

impl Clone for SimplifiedPattern {
    /// A copy of the pattern, equal in view.
    fn clone(&self) -> (r: SimplifiedPattern)
        ensures
            r@ == self@,
        decreases *self,
    {
        SimplifiedPattern { kind: self.kind.clone(), ty: self.ty }
    }
}

/// An element-wise copy of a pattern vector, equal in view.
pub fn clone_pats(v: &Vec<SimplifiedPattern>) -> (r: Vec<SimplifiedPattern>)
    ensures
        pats_view(r@) =~= pats_view(v@),
        r@.len() == v@.len(),
    decreases v@,
{
    let mut out: Vec<SimplifiedPattern> = Vec::new();
    let mut i: usize = 0;
    while i < v.len()
        invariant
            0 <= i <= v@.len(),
            out@.len() == i,
            forall|k: int| 0 <= k < i ==> pat_view(#[trigger] out@[k]) == pat_view(v@[k]),
        decreases v@.len() - i,
    {
        let c = v[i].clone();
        out.push(c);
        i = i + 1;
    }
    proof {
        lemma_pats_view_len(out@);
        lemma_pats_view_len(v@);
        assert forall|k: int| 0 <= k < v@.len() implies pats_view(out@)[k] == pats_view(v@)[k] by {
            lemma_pats_view_index(out@, k);
            lemma_pats_view_index(v@, k);
        }
        assert(pats_view(out@) =~= pats_view(v@));
    }
    out
}

/// The number of nodes of a pattern, wildcards included; the measure or-
/// expansion shrinks.
pub open spec fn fsize(v: SPat) -> nat
    decreases v, 0int,
{
    match v.kind {
        SPatKind::Wild => 1,
        SPatKind::Ctor { ctor, fields } => 1 + fsize_seq(fields),
        SPatKind::Or(ps) => 1 + fsize_seq(ps),
    }
}

/// The summed node count of a sequence of patterns.
pub open spec fn fsize_seq(s: Seq<SPat>) -> nat
    decreases s, 1int,
{
    if s.len() == 0 {
        0
    } else {
        fsize(s[0]) + fsize_seq(s.drop_first())
    }
}

/// The constructor weight of a pattern — wildcards weigh nothing; the
/// measure specialization shrinks.
pub open spec fn psize(v: SPat) -> nat
    decreases v, 0int,
{
    match v.kind {
        SPatKind::Wild => 0,
        SPatKind::Ctor { ctor, fields } => 1 + psize_seq(fields),
        SPatKind::Or(ps) => 1 + psize_seq(ps),
    }
}

/// The summed constructor weight of a sequence of patterns.
pub open spec fn psize_seq(s: Seq<SPat>) -> nat
    decreases s, 1int,
{
    if s.len() == 0 {
        0
    } else {
        psize(s[0]) + psize_seq(s.drop_first())
    }
}

/// Whether a pattern holds no or-pattern anywhere.
pub open spec fn or_free(v: SPat) -> bool
    decreases v, 0int,
{
    match v.kind {
        SPatKind::Wild => true,
        SPatKind::Ctor { ctor, fields } => or_free_seq(fields),
        SPatKind::Or(_) => false,
    }
}

/// Whether every pattern of the sequence is or-free.
pub open spec fn or_free_seq(s: Seq<SPat>) -> bool
    decreases s, 1int,
{
    s.len() == 0 || (or_free(s[0]) && or_free_seq(s.drop_first()))
}

/// Whether a pattern is well typed against the catalog: every constructor
/// names an actual variant of the pattern's own type and carries one
/// correctly typed sub-pattern per declared field; every or-alternative has
/// the or-pattern's type.
pub open spec fn pat_typed(cat: TypeCatalog, v: SPat) -> bool
    decreases v, 0int,
{
    match v.kind {
        SPatKind::Wild => true,
        SPatKind::Ctor { ctor, fields } => {
            &&& ctor.spec_holds_in(cat)
            &&& ctor.spec_ty() == v.ty
            &&& fields.len() == ctor.spec_field_types(cat).len()
            &&& forall|i: int|
                0 <= i < fields.len() ==> (#[trigger] fields[i]).ty == ctor.spec_field_types(
                    cat,
                )[i]
            &&& pats_typed(cat, fields)
        },
        SPatKind::Or(ps) => {
            &&& forall|i: int| 0 <= i < ps.len() ==> (#[trigger] ps[i]).ty == v.ty
            &&& pats_typed(cat, ps)
        },
    }
}

/// Whether every pattern of the sequence is well typed.
pub open spec fn pats_typed(cat: TypeCatalog, s: Seq<SPat>) -> bool
    decreases s, 1int,
{
    s.len() == 0 || (pat_typed(cat, s[0]) && pats_typed(cat, s.drop_first()))
}

/// One pattern of a sequence weighs no more than the whole sequence.
pub proof fn lemma_fsize_seq_element(s: Seq<SPat>, i: int)
    requires
        0 <= i < s.len(),
    ensures
        fsize(s[i]) <= fsize_seq(s),
    decreases s.len(),
{
    if i > 0 {
        lemma_fsize_seq_element(s.drop_first(), i - 1);
    }
}

/// The constructors appearing in a pattern, or-alternatives expanded
/// recursively, in appearance order.
pub open spec fn spec_collect_ctors(v: SPat) -> Seq<ConstructorKind>
    decreases v, 0int,
{
    match v.kind {
        SPatKind::Wild => Seq::empty(),
        SPatKind::Ctor { ctor, fields } => seq![ctor],
        SPatKind::Or(ps) => spec_collect_ctors_seq(ps),
    }
}

/// The constructors appearing at the heads of a sequence of patterns.
pub open spec fn spec_collect_ctors_seq(s: Seq<SPat>) -> Seq<ConstructorKind>
    decreases s, 1int,
{
    if s.len() == 0 {
        Seq::empty()
    } else {
        spec_collect_ctors(s[0]) + spec_collect_ctors_seq(s.drop_first())
    }
}

impl SimplifiedPatternKind {
    /// The constructors this shape can match, or-alternatives expanded
    /// recursively, in appearance order.
    pub fn collect_ctors(&self, ty: TypeId) -> (r: Vec<ConstructorKind>)
        ensures
            r@ == spec_collect_ctors(pat_view(SimplifiedPattern { kind: *self, ty })),
        decreases fsize(pat_view(SimplifiedPattern { kind: *self, ty })),
    {
        match self {
            SimplifiedPatternKind::WildCard => {
                let r: Vec<ConstructorKind> = Vec::new();
                proof {
                    assert(*self is WildCard);
                    assert(r@ =~= spec_collect_ctors(pat_view(SimplifiedPattern { kind: *self, ty })));
                }
                r
            },
            SimplifiedPatternKind::Constructor { kind, fields: _ } => {
                let mut out: Vec<ConstructorKind> = Vec::new();
                out.push(*kind);
                proof {
                    assert(out@ =~= seq![*kind]);
                }
                out
            },
            SimplifiedPatternKind::Or(ps) => {
                proof {
                    assert(*self is Or);
                    assert((*self)->Or_0 == *ps);
                    assert(kind_view(*self) == SPatKind::Or(pats_view(ps@)));
                    lemma_pats_view_len(ps@);
                }
                let mut out: Vec<ConstructorKind> = Vec::new();
                let mut i: usize = 0;
                while i < ps.len()
                    invariant
                        *self is Or,
                        (*self)->Or_0 == *ps,
                        0 <= i <= ps@.len(),
                        out@ =~= spec_collect_ctors_prefix(pats_view(ps@), i as int),
                    decreases ps@.len() - i,
                {
                    proof {
                        assert(kind_view(*self) == SPatKind::Or(pats_view(ps@)));
                        lemma_pats_view_len(ps@);
                        lemma_pats_view_index(ps@, i as int);
                        lemma_fsize_seq_element(pats_view(ps@), i as int);
                        assert(pat_view(
                            SimplifiedPattern { kind: ps@[i as int].kind, ty: ps@[i as int].ty },
                        ) == pat_view(ps@[i as int]));
                    }
                    let mut sub = ps[i].kind.collect_ctors(ps[i].ty);
                    proof {
                        assert(pat_view(ps@[i as int]) == pat_view(
                            SimplifiedPattern { kind: ps@[i as int].kind, ty: ps@[i as int].ty },
                        ));
                        lemma_pats_view_index(ps@, i as int);
                        assert(pats_view(ps@)[i as int] == pat_view(ps@[i as int]));
                    }
                    out.append(&mut sub);
                    i = i + 1;
                }
                proof {
                    lemma_collect_ctors_prefix_full(pats_view(ps@));
                    assert(pat_view(SimplifiedPattern { kind: *self, ty }).kind->Or_0 =~= pats_view(
                        ps@,
                    ));
                    assert(spec_collect_ctors(pat_view(SimplifiedPattern { kind: *self, ty }))
                        == spec_collect_ctors_seq(pats_view(ps@)));
                }
                out
            },
        }
    }

    /// The shape matching one constructor with a wildcard for each field.
    pub fn ctor_with_wild_card_fields(cat: &TypeCatalog, kind: ConstructorKind) -> (r:
        SimplifiedPatternKind)
        requires
            kind.spec_holds_in(*cat),
        ensures
            pat_view(SimplifiedPattern { kind: r, ty: kind.spec_ty() }) == (SPat {
                kind: SPatKind::Ctor {
                    ctor: kind,
                    fields: wild_fields(kind.spec_field_types(*cat)),
                },
                ty: kind.spec_ty(),
            }),
    {
        let tys = kind.field_types(cat);
        let mut fields: Vec<SimplifiedPattern> = Vec::new();
        let mut i: usize = 0;
        while i < tys.len()
            invariant
                0 <= i <= tys@.len(),
                fields@.len() == i,
                forall|k: int| 0 <= k < i ==> pat_view(#[trigger] fields@[k]) == (SPat {
                    kind: SPatKind::Wild,
                    ty: tys@[k],
                }),
            decreases tys@.len() - i,
        {
            fields.push(SimplifiedPattern::wild_card(tys[i]));
            i = i + 1;
        }
        let r = SimplifiedPatternKind::Constructor { kind, fields };
        proof {
            lemma_pats_view_len(fields@);
            assert forall|k: int| 0 <= k < fields@.len() implies pats_view(fields@)[k]
                == wild_fields(kind.spec_field_types(*cat))[k] by {
                lemma_pats_view_index(fields@, k);
            }
            assert(pats_view(fields@) =~= wild_fields(kind.spec_field_types(*cat)));
            assert(pat_view(SimplifiedPattern { kind: r, ty: kind.spec_ty() }).kind->Ctor_fields
                =~= wild_fields(kind.spec_field_types(*cat)));
            assert(pat_view(SimplifiedPattern { kind: r, ty: kind.spec_ty() }) =~~= (SPat {
                kind: SPatKind::Ctor {
                    ctor: kind,
                    fields: wild_fields(kind.spec_field_types(*cat)),
                },
                ty: kind.spec_ty(),
            }));
        }
        r
    }
}

/// One wildcard pattern per type of `tys`.
pub open spec fn wild_fields(tys: Seq<TypeId>) -> Seq<SPat> {
    Seq::new(tys.len(), |i: int| SPat { kind: SPatKind::Wild, ty: tys[i] })
}

/// The head constructors of the first `i` patterns of a sequence.
pub open spec fn spec_collect_ctors_prefix(s: Seq<SPat>, i: int) -> Seq<ConstructorKind>
    decreases i,
{
    if i <= 0 {
        Seq::empty()
    } else {
        spec_collect_ctors_prefix(s, i - 1) + spec_collect_ctors(s[i - 1])
    }
}

/// Collecting over the whole sequence, front to back or back to front,
/// gathers the same constructors.
pub proof fn lemma_collect_ctors_prefix_full(s: Seq<SPat>)
    ensures
        spec_collect_ctors_prefix(s, s.len() as int) == spec_collect_ctors_seq(s),
    decreases s.len(),
{
    if s.len() > 0 {
        lemma_collect_ctors_prefix_full(s.drop_first());
        assert forall|i: int| 0 < i <= s.len() implies spec_collect_ctors_prefix(s, i)
            == spec_collect_ctors(s[0]) + spec_collect_ctors_prefix(s.drop_first(), i - 1) by {
            lemma_collect_ctors_prefix_shift(s, i);
        }
        assert(spec_collect_ctors_prefix(s, s.len() as int) =~= spec_collect_ctors_seq(s));
    } else {
        assert(spec_collect_ctors_prefix(s, 0) =~= spec_collect_ctors_seq(s));
    }
}

/// A prefix collection splits off its first pattern's constructors.
proof fn lemma_collect_ctors_prefix_shift(s: Seq<SPat>, i: int)
    requires
        0 < i <= s.len(),
    ensures
        spec_collect_ctors_prefix(s, i) == spec_collect_ctors(s[0]) + spec_collect_ctors_prefix(
            s.drop_first(),
            i - 1,
        ),
    decreases i,
{
    if i == 1 {
        assert(spec_collect_ctors_prefix(s, 0) =~= Seq::<ConstructorKind>::empty());
        assert(spec_collect_ctors_prefix(s.drop_first(), 0) =~= Seq::<ConstructorKind>::empty());
        assert(spec_collect_ctors_prefix(s, 1) =~= spec_collect_ctors(s[0])
            + spec_collect_ctors_prefix(s.drop_first(), 0));
    } else {
        lemma_collect_ctors_prefix_shift(s, i - 1);
        assert(s.drop_first()[i - 2] == s[i - 1]);
        assert(spec_collect_ctors_prefix(s, i) =~= spec_collect_ctors(s[0])
            + spec_collect_ctors_prefix(s.drop_first(), i - 1));
    }
}

} // verus!
