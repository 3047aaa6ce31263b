//! The resolution bucket: the result of one name query, holding for each
//! name domain at most one winning resolution or error. The push rule that
//! merges a candidate into the bucket is the single place where the
//! shadowing order is applied.

use core::cmp::Ordering;
use vstd::prelude::*;

use crate::domain::NameDomain;
use crate::name_res::{
    spec_deriv_cmp, NameDerivation, NameRes, NameResolutionError, NameResolutionResult,
};
use crate::{IdentId, SpanId};

verus! {

/// The mathematical value of a [`NameResolutionError`]: the same shape, with
/// sequences in place of vectors.
#[verifier::ext_equal]
pub enum ResErrorView {
    NotFound,
    Invalid,
    Invisible(Option<SpanId>),
    Ambiguous(Seq<NameRes>),
    InvalidPathSegment(NameRes),
    Conflict(IdentId, Seq<SpanId>),
}

impl View for NameResolutionError {
    type V = ResErrorView;

    open spec fn view(&self) -> ResErrorView {
        match self {
            NameResolutionError::NotFound => ResErrorView::NotFound,
            NameResolutionError::Invalid => ResErrorView::Invalid,
            NameResolutionError::Invisible(s) => ResErrorView::Invisible(*s),
            NameResolutionError::Ambiguous(v) => ResErrorView::Ambiguous(v@),
            NameResolutionError::InvalidPathSegment(r) => ResErrorView::InvalidPathSegment(*r),
            NameResolutionError::Conflict(n, spans) => ResErrorView::Conflict(*n, spans@),
        }
    }
}

/// One domain slot of a bucket, as a mathematical value.
pub type SlotView = Option<Result<NameRes, ResErrorView>>;

/// The mathematical value of a bucket: one slot per domain.
#[verifier::ext_equal]
pub struct BucketView {
    pub type_slot: SlotView,
    pub value_slot: SlotView,
    pub field_slot: SlotView,
}

impl BucketView {
    /// The bucket with no entry in any domain.
    pub open spec fn empty() -> BucketView {
        BucketView { type_slot: None, value_slot: None, field_slot: None }
    }

    /// The live resolution of the type domain, if any.
    pub open spec fn live_type(self) -> Option<NameRes> {
        match self.type_slot {
            Some(Ok(r)) => Some(r),
            _ => None,
        }
    }

    /// The live resolution of the value domain, if any.
    pub open spec fn live_value(self) -> Option<NameRes> {
        match self.value_slot {
            Some(Ok(r)) => Some(r),
            _ => None,
        }
    }

    /// The live resolution of the field domain, if any.
    pub open spec fn live_field(self) -> Option<NameRes> {
        match self.field_slot {
            Some(Ok(r)) => Some(r),
            _ => None,
        }
    }
}

/// The view of one executable slot.
pub open spec fn slot_view(s: Option<NameResolutionResult<NameRes>>) -> SlotView {
    match s {
        None => None,
        Some(Ok(r)) => Some(Ok(r)),
        Some(Err(e)) => Some(Err(e@)),
    }
}

/// The push rule on one domain slot, merging candidate `res` in:
/// an empty slot or a `NotFound` slot takes `Ok(res)`; against a live `old`,
/// a strictly higher derivation replaces it, a strictly lower one is
/// discarded, and an equal one makes an ambiguity of the two (in insertion
/// order) unless both resolve to the same target; a candidate whose
/// derivation equals an existing ambiguity group's first derivation joins
/// the group; any other error in the slot suppresses the candidate.
pub open spec fn spec_push_slot(s: SlotView, res: NameRes) -> SlotView {
    match s {
        None => Some(Ok(res)),
        Some(Ok(old)) => match spec_deriv_cmp(res.derivation, old.derivation) {
            Ordering::Less => s,
            Ordering::Equal => if old.kind != res.kind {
                Some(Err(ResErrorView::Ambiguous(seq![old, res])))
            } else {
                s
            },
            Ordering::Greater => Some(Ok(res)),
        },
        Some(Err(ResErrorView::NotFound)) => Some(Ok(res)),
        Some(Err(ResErrorView::Ambiguous(group))) => if group.len() > 0 && group[0].derivation
            == res.derivation {
            Some(Err(ResErrorView::Ambiguous(group.push(res))))
        } else {
            s
        },
        Some(Err(_)) => s,
    }
}

/// The push rule on a whole bucket: the candidate is merged into the slot of
/// each domain it belongs to, independently.
pub open spec fn spec_push(b: BucketView, res: NameRes) -> BucketView {
    BucketView {
        type_slot: if res.domain.is_type {
            spec_push_slot(b.type_slot, res)
        } else {
            b.type_slot
        },
        value_slot: if res.domain.is_value {
            spec_push_slot(b.value_slot, res)
        } else {
            b.value_slot
        },
        field_slot: if res.domain.is_field {
            spec_push_slot(b.field_slot, res)
        } else {
            b.field_slot
        },
    }
}

/// The error half of a merge, on one slot: an error of `o` lands in `b`'s
/// slot only where that slot is empty or `NotFound`.
pub open spec fn spec_merge_err_slot(b: SlotView, o: SlotView) -> SlotView {
    match o {
        Some(Err(e)) => match b {
            None => Some(Err(e)),
            Some(Err(ResErrorView::NotFound)) => Some(Err(e)),
            _ => b,
        },
        _ => b,
    }
}

/// Merging a whole bucket `o` into `b`: first `o`'s errors, each landing
/// only on an empty or `NotFound` slot; then `o`'s live resolutions, pushed
/// one by one in domain order (type, value, field).
pub open spec fn spec_merge(b: BucketView, o: BucketView) -> BucketView {
    let b1 = BucketView {
        type_slot: spec_merge_err_slot(b.type_slot, o.type_slot),
        value_slot: spec_merge_err_slot(b.value_slot, o.value_slot),
        field_slot: spec_merge_err_slot(b.field_slot, o.field_slot),
    };
    let b2 = match o.live_type() {
        Some(r) => spec_push(b1, r),
        None => b1,
    };
    let b3 = match o.live_value() {
        Some(r) => spec_push(b2, r),
        None => b2,
    };
    match o.live_field() {
        Some(r) => spec_push(b3, r),
        None => b3,
    }
}

/// What `pick` returns for a query domain: the first present slot among the
/// domain's capabilities, in the order type, value, field; `NotFound` where
/// none is present.
pub open spec fn spec_pick(b: BucketView, domain: NameDomain) -> Result<NameRes, ResErrorView> {
    if domain.is_type && b.type_slot is Some {
        b.type_slot->0
    } else if domain.is_value && b.value_slot is Some {
        b.value_slot->0
    } else if domain.is_field && b.field_slot is Some {
        b.field_slot->0
    } else {
        Err(ResErrorView::NotFound)
    }
}

/// One slot after the whole bucket's derivations were wrapped one lexical
/// level deeper: only live resolutions change.
pub open spec fn spec_lexed_slot(s: SlotView) -> SlotView {
    match s {
        Some(Ok(r)) => Some(
            Ok(NameRes { derivation: NameDerivation::Lex(Box::new(r.derivation)), ..r }),
        ),
        _ => s,
    }
}

/// The bucket after every live resolution's derivation was wrapped one
/// lexical level deeper.
pub open spec fn spec_set_lexed(b: BucketView) -> BucketView {
    BucketView {
        type_slot: spec_lexed_slot(b.type_slot),
        value_slot: spec_lexed_slot(b.value_slot),
        field_slot: spec_lexed_slot(b.field_slot),
    }
}

/// One slot after the whole bucket's derivations were replaced by `d`.
pub open spec fn spec_set_derivation_slot(s: SlotView, d: NameDerivation) -> SlotView {
    match s {
        Some(Ok(r)) => Some(Ok(NameRes { derivation: d, ..r })),
        _ => s,
    }
}

/// The result of one name query: a mapping from each name domain to the
/// winning resolution, or to the error that arose there. Created fresh per
/// query and mutated only by the resolver while the query is evaluated.
#[derive(Debug)]
pub struct NameResBucket {
    pub type_slot: Option<NameResolutionResult<NameRes>>,
    pub value_slot: Option<NameResolutionResult<NameRes>>,
    pub field_slot: Option<NameResolutionResult<NameRes>>,
}

impl View for NameResBucket {
    type V = BucketView;

    open spec fn view(&self) -> BucketView {
        BucketView {
            type_slot: slot_view(self.type_slot),
            value_slot: slot_view(self.value_slot),
            field_slot: slot_view(self.field_slot),
        }
    }
}

impl Default for NameResBucket {
    /// The empty bucket.
    fn default() -> (r: NameResBucket)
        ensures
            r@ == BucketView::empty(),
    {
        NameResBucket { type_slot: None, value_slot: None, field_slot: None }
    }
}

/// An exact element-wise copy of a vector of resolutions.
fn clone_res_vec(v: &Vec<NameRes>) -> (r: Vec<NameRes>)
    ensures
        r@ =~= v@,
{
    let mut copy: Vec<NameRes> = Vec::new();
    let mut i: usize = 0;
    while i < v.len()
        invariant
            0 <= i <= v@.len(),
            copy@ =~= v@.subrange(0, i as int),
        decreases v@.len() - i,
    {
        copy.push(v[i].deep_clone());
        i = i + 1;
    }
    proof {
        assert(copy@ =~= v@);
    }
    copy
}

impl NameResolutionError {
    /// An exact copy of this error.
    pub fn deep_clone(&self) -> (r: NameResolutionError)
        ensures
            r@ == self@,
    {
        match self {
            NameResolutionError::NotFound => NameResolutionError::NotFound,
            NameResolutionError::Invalid => NameResolutionError::Invalid,
            NameResolutionError::Invisible(s) => NameResolutionError::Invisible(*s),
            NameResolutionError::Ambiguous(group) => {
                let mut copy: Vec<NameRes> = Vec::new();
                let mut i: usize = 0;
                while i < group.len()
                    invariant
                        0 <= i <= group@.len(),
                        copy@ =~= group@.subrange(0, i as int),
                    decreases group@.len() - i,
                {
                    copy.push(group[i].deep_clone());
                    i = i + 1;
                }
                proof {
                    assert(copy@ =~= group@);
                }
                NameResolutionError::Ambiguous(copy)
            },
            NameResolutionError::InvalidPathSegment(r) => NameResolutionError::InvalidPathSegment(
                r.deep_clone(),
            ),
            NameResolutionError::Conflict(n, spans) => {
                let mut copy: Vec<SpanId> = Vec::new();
                let mut i: usize = 0;
                while i < spans.len()
                    invariant
                        0 <= i <= spans@.len(),
                        copy@ =~= spans@.subrange(0, i as int),
                    decreases spans@.len() - i,
                {
                    copy.push(spans[i]);
                    i = i + 1;
                }
                proof {
                    assert(copy@ =~= spans@);
                }
                NameResolutionError::Conflict(*n, copy)
            },
        }
    }
}

impl NameResBucket {
    /// The empty bucket.
    pub fn new() -> (r: NameResBucket)
        ensures
            r@ == BucketView::empty(),
    {
        NameResBucket { type_slot: None, value_slot: None, field_slot: None }
    }

    /// Merges the candidate `res` into the slot of each domain it belongs
    /// to, by the push rule.
    pub fn push(&mut self, res: &NameRes)
        ensures
            final(self)@ == spec_push(old(self)@, *res),
    {
        if res.domain.is_type {
            Self::push_slot(&mut self.type_slot, res);
        }
        if res.domain.is_value {
            Self::push_slot(&mut self.value_slot, res);
        }
        if res.domain.is_field {
            Self::push_slot(&mut self.field_slot, res);
        }
    }

    /// The push rule on one slot; see [`spec_push_slot`].
    fn push_slot(slot: &mut Option<NameResolutionResult<NameRes>>, res: &NameRes)
        ensures
            slot_view(*final(slot)) == spec_push_slot(slot_view(*old(slot)), *res),
    {
        let updated: Option<NameResolutionResult<NameRes>> = match &*slot {
            None => Some(Ok(res.deep_clone())),
            Some(Ok(old_res)) => match res.derivation.cmp(&old_res.derivation) {
                Ordering::Less => {
                    return ;
                },
                Ordering::Equal => {
                    if old_res.kind != res.kind {
                        let mut group: Vec<NameRes> = Vec::new();
                        group.push(old_res.deep_clone());
                        group.push(res.deep_clone());
                        proof {
                            assert(group@ =~= seq![*old_res, *res]);
                        }
                        Some(Err(NameResolutionError::Ambiguous(group)))
                    } else {
                        return ;
                    }
                },
                Ordering::Greater => Some(Ok(res.deep_clone())),
            },
            Some(Err(NameResolutionError::NotFound)) => Some(Ok(res.deep_clone())),
            Some(Err(NameResolutionError::Ambiguous(group))) => {
                if group.len() > 0 && group[0].derivation.same_as(&res.derivation) {
                    let mut joined = clone_res_vec(group);
                    joined.push(res.deep_clone());
                    proof {
                        assert(joined@ =~= group@.push(*res));
                    }
                    Some(Err(NameResolutionError::Ambiguous(joined)))
                } else {
                    return ;
                }
            },
            Some(Err(_)) => {
                return ;
            },
        };
        *slot = updated;
        proof {
            assert(slot_view(*slot) =~~= spec_push_slot(slot_view(*old(slot)), *res));
        }
    }

    /// Merges a whole bucket in: its errors land on empty or `NotFound`
    /// slots, then its live resolutions are pushed in domain order.
    pub fn merge(&mut self, other: &NameResBucket)
        ensures
            final(self)@ == spec_merge(old(self)@, other@),
    {
        Self::merge_err_slot(&mut self.type_slot, &other.type_slot);
        Self::merge_err_slot(&mut self.value_slot, &other.value_slot);
        Self::merge_err_slot(&mut self.field_slot, &other.field_slot);
        if let Some(Ok(r)) = &other.type_slot {
            self.push(r);
        }
        if let Some(Ok(r)) = &other.value_slot {
            self.push(r);
        }
        if let Some(Ok(r)) = &other.field_slot {
            self.push(r);
        }
    }

    /// The error half of a merge on one slot; see [`spec_merge_err_slot`].
    fn merge_err_slot(
        slot: &mut Option<NameResolutionResult<NameRes>>,
        other: &Option<NameResolutionResult<NameRes>>,
    )
        ensures
            slot_view(*final(slot)) == spec_merge_err_slot(slot_view(*old(slot)), slot_view(*other)),
    {
        if let Some(Err(e)) = other {
            let take: bool = match slot {
                None => true,
                Some(Err(NameResolutionError::NotFound)) => true,
                _ => false,
            };
            if take {
                *slot = Some(Err(e.deep_clone()));
            }
        }
    }

    /// The resolution of the given query domain: the first present slot
    /// among the domain's capabilities, in the order type, value, field;
    /// `NotFound` where none is present.
    pub fn pick(&self, domain: NameDomain) -> (r: NameResolutionResult<NameRes>)
        ensures
            result_view(r) == spec_pick(self@, domain),
    {
        if domain.is_type && self.type_slot.is_some() {
            Self::clone_result(self.type_slot.as_ref().unwrap())
        } else if domain.is_value && self.value_slot.is_some() {
            Self::clone_result(self.value_slot.as_ref().unwrap())
        } else if domain.is_field && self.field_slot.is_some() {
            Self::clone_result(self.field_slot.as_ref().unwrap())
        } else {
            Err(NameResolutionError::NotFound)
        }
    }

    /// An exact copy of one slot's result.
    fn clone_result(r: &NameResolutionResult<NameRes>) -> (c: NameResolutionResult<NameRes>)
        ensures
            result_view(c) == result_view(*r),
    {
        match r {
            Ok(res) => Ok(res.deep_clone()),
            Err(e) => Err(e.deep_clone()),
        }
    }

    /// The live resolutions of the bucket, in domain order.
    pub fn iter_ok(&self) -> (r: Vec<&NameRes>)
        ensures
            r@.map_values(|x: &NameRes| *x) == live_seq(self@),
    {
        let mut out: Vec<&NameRes> = Vec::new();
        if let Some(Ok(res)) = &self.type_slot {
            out.push(res);
        }
        if let Some(Ok(res)) = &self.value_slot {
            out.push(res);
        }
        if let Some(Ok(res)) = &self.field_slot {
            out.push(res);
        }
        proof {
            assert(out@.map_values(|x: &NameRes| *x) =~= live_seq(self@));
        }
        out
    }

    /// How many live resolutions the bucket holds.
    pub fn len(&self) -> (r: usize)
        ensures
            r == live_seq(self@).len(),
    {
        self.iter_ok().len()
    }

    /// Whether the bucket holds no live resolution.
    pub fn is_empty(&self) -> (r: bool)
        ensures
            r == (live_seq(self@).len() == 0),
    {
        self.len() == 0
    }

    /// The errors of the bucket, each with its domain, in domain order.
    pub fn errors(&self) -> (r: Vec<(NameDomain, &NameResolutionError)>)
        ensures
            r@.map_values(|p: (NameDomain, &NameResolutionError)| (p.0, p.1@)) == error_seq(self@),
    {
        let mut out: Vec<(NameDomain, &NameResolutionError)> = Vec::new();
        if let Some(Err(e)) = &self.type_slot {
            out.push((NameDomain::type_dom(), e));
        }
        if let Some(Err(e)) = &self.value_slot {
            out.push((NameDomain::value_dom(), e));
        }
        if let Some(Err(e)) = &self.field_slot {
            out.push((NameDomain::field_dom(), e));
        }
        proof {
            assert(out@.map_values(|p: (NameDomain, &NameResolutionError)| (p.0, p.1@))
                =~= error_seq(self@));
        }
        out
    }

    /// Restricts the bucket to the given domain the way repeated per-
    /// capability retention does: with a single-capability domain only that
    /// slot survives; with no capability nothing changes; with several, each
    /// retention pass invalidates the previous one's survivors, so nothing
    /// survives.
    pub fn filter_by_domain(&mut self, domain: NameDomain)
        ensures
            final(self)@ == spec_filter_by_domain(old(self)@, domain),
    {
        let atoms: usize = (if domain.is_type {
            1usize
        } else {
            0usize
        }) + (if domain.is_value {
            1usize
        } else {
            0usize
        }) + (if domain.is_field {
            1usize
        } else {
            0usize
        });
        if atoms == 0 {
            return ;
        }
        if atoms > 1 {
            self.type_slot = None;
            self.value_slot = None;
            self.field_slot = None;
            return ;
        }
        if !domain.is_type {
            self.type_slot = None;
        }
        if !domain.is_value {
            self.value_slot = None;
        }
        if !domain.is_field {
            self.field_slot = None;
        }
    }

    /// Replaces the derivation of every live resolution with `derivation`.
    pub fn set_derivation(&mut self, derivation: &NameDerivation)
        ensures
            final(self)@ == (BucketView {
                type_slot: spec_set_derivation_slot(old(self)@.type_slot, *derivation),
                value_slot: spec_set_derivation_slot(old(self)@.value_slot, *derivation),
                field_slot: spec_set_derivation_slot(old(self)@.field_slot, *derivation),
            }),
    {
        Self::set_derivation_slot(&mut self.type_slot, derivation);
        Self::set_derivation_slot(&mut self.value_slot, derivation);
        Self::set_derivation_slot(&mut self.field_slot, derivation);
    }

    fn set_derivation_slot(
        slot: &mut Option<NameResolutionResult<NameRes>>,
        derivation: &NameDerivation,
    )
        ensures
            slot_view(*final(slot)) == spec_set_derivation_slot(slot_view(*old(slot)), *derivation),
    {
        if let Some(Ok(res)) = slot {
            res.derivation = derivation.deep_clone();
        }
    }

    /// Wraps the derivation of every live resolution one lexical level
    /// deeper, marking it as inherited from an enclosing scope.
    pub fn set_lexed_derivation(&mut self)
        ensures
            final(self)@ == spec_set_lexed(old(self)@),
    {
        Self::set_lexed_slot(&mut self.type_slot);
        Self::set_lexed_slot(&mut self.value_slot);
        Self::set_lexed_slot(&mut self.field_slot);
    }

    fn set_lexed_slot(slot: &mut Option<NameResolutionResult<NameRes>>)
        ensures
            slot_view(*final(slot)) == spec_lexed_slot(slot_view(*old(slot))),
    {
        if let Some(Ok(res)) = slot {
            res.derivation.lexed();
        }
    }

    /// The bucket holding `res` alone, in each domain it belongs to.
    pub fn from_res(res: NameRes) -> (r: NameResBucket)
        ensures
            r@ == spec_push(BucketView::empty(), res),
    {
        let mut b = NameResBucket::new();
        b.push(&res);
        b
    }
}

/// The live resolutions of a bucket, in domain order.
pub open spec fn live_seq(b: BucketView) -> Seq<NameRes> {
    let t: Seq<NameRes> = match b.live_type() {
        Some(r) => seq![r],
        None => seq![],
    };
    let v: Seq<NameRes> = match b.live_value() {
        Some(r) => seq![r],
        None => seq![],
    };
    let f: Seq<NameRes> = match b.live_field() {
        Some(r) => seq![r],
        None => seq![],
    };
    t + v + f
}

/// The errors of a bucket, each with its domain, in domain order.
pub open spec fn error_seq(b: BucketView) -> Seq<(NameDomain, ResErrorView)> {
    let t: Seq<(NameDomain, ResErrorView)> = match b.type_slot {
        Some(Err(e)) => seq![(NameDomain::spec_type(), e)],
        _ => seq![],
    };
    let v: Seq<(NameDomain, ResErrorView)> = match b.value_slot {
        Some(Err(e)) => seq![(NameDomain::spec_value(), e)],
        _ => seq![],
    };
    let f: Seq<(NameDomain, ResErrorView)> = match b.field_slot {
        Some(Err(e)) => seq![(NameDomain::spec_field(), e)],
        _ => seq![],
    };
    t + v + f
}

/// The view of one owned result.
pub open spec fn result_view(r: NameResolutionResult<NameRes>) -> Result<NameRes, ResErrorView> {
    match r {
        Ok(res) => Ok(res),
        Err(e) => Err(e@),
    }
}

/// What repeated per-capability retention leaves of a bucket; see
/// [`NameResBucket::filter_by_domain`].
pub open spec fn spec_filter_by_domain(b: BucketView, domain: NameDomain) -> BucketView {
    let atoms = (if domain.is_type {
        1int
    } else {
        0int
    }) + (if domain.is_value {
        1int
    } else {
        0int
    }) + (if domain.is_field {
        1int
    } else {
        0int
    });
    if atoms == 0 {
        b
    } else if atoms > 1 {
        BucketView::empty()
    } else {
        BucketView {
            type_slot: if domain.is_type {
                b.type_slot
            } else {
                None
            },
            value_slot: if domain.is_value {
                b.value_slot
            } else {
                None
            },
            field_slot: if domain.is_field {
                b.field_slot
            } else {
                None
            },
        }
    }
}

/// At most one live resolution per domain: a bucket keeps a single slot per
/// domain, so two live resolutions of the same domain are the same
/// resolution.
pub proof fn lemma_at_most_one_live_resolution_per_domain(b: BucketView, r1: NameRes, r2: NameRes)
    requires
        b.live_type() == Some(r1) && b.live_type() == Some(r2) || b.live_value() == Some(r1)
            && b.live_value() == Some(r2) || b.live_field() == Some(r1) && b.live_field() == Some(
            r2,
        ),
    ensures
        r1 == r2,
{
}

/// The push rule respects the shadowing order: against a live resolution, a
/// candidate with a strictly higher derivation wins the slot, and one with a
/// strictly lower derivation is discarded.
pub proof fn lemma_push_prefers_higher_derivation(s: SlotView, old_res: NameRes, res: NameRes)
    requires
        s == Some(Result::<NameRes, ResErrorView>::Ok(old_res)),
    ensures
        spec_deriv_cmp(res.derivation, old_res.derivation) == Ordering::Greater ==> spec_push_slot(
            s,
            res,
        ) == Some(Result::<NameRes, ResErrorView>::Ok(res)),
        spec_deriv_cmp(res.derivation, old_res.derivation) == Ordering::Less ==> spec_push_slot(
            s,
            res,
        ) == s,
{
}

/// Two named imports of one identifier into one domain slot, from distinct
/// targets, make an ambiguity holding both candidates, in insertion order.
pub proof fn lemma_two_named_imports_make_ambiguity(a: NameRes, b: NameRes)
    requires
        a.derivation is NamedImported,
        b.derivation is NamedImported,
        a.kind != b.kind,
    ensures
        spec_push_slot(spec_push_slot(None, a), b) == Some(
            Result::<NameRes, ResErrorView>::Err(ResErrorView::Ambiguous(seq![a, b])),
        ),
{
}

} // verus!
