//! Enum `match` exhaustiveness checking: a recursive matrix-specialization
//! algorithm over simplified patterns that decides coverage and builds a
//! counter-example witness when coverage fails.

use vstd::prelude::*;

use crate::pattern::{
    fsize, fsize_seq, or_free, or_free_seq, pat_view, pat_typed, pats_typed, pats_view,
    psize, psize_seq, wild_fields, ConstructorKind, SPat, SPatKind, SimplifiedPattern,
    SimplifiedPatternKind,
};
use crate::types::{TypeCatalog, TypeId};

verus! {

/// One row of a pattern matrix: one simplified pattern per remaining
/// scrutinee column.
#[derive(Debug)]
pub struct PatternRowVec {
    pub inner: Vec<SimplifiedPattern>,
}

impl View for PatternRowVec {
    type V = Seq<SPat>;

    open spec fn view(&self) -> Seq<SPat> {
        pats_view(self.inner@)
    }
}

/// An ordered list of rows, built once per `match` and consumed by
/// recursive specialization.
#[derive(Debug)]
pub struct PatternMatrix {
    pub rows: Vec<PatternRowVec>,
}

impl View for PatternMatrix {
    type V = Seq<Seq<SPat>>;

    open spec fn view(&self) -> Seq<Seq<SPat>> {
        Seq::new(self.rows@.len(), |i: int| self.rows@[i]@)
    }
}

/// The summed constructor weight of the rows from `i` on.
pub open spec fn msize_from(rows: Seq<Seq<SPat>>, i: int) -> nat
    decreases rows.len() - i,
{
    if i < 0 || i >= rows.len() {
        0
    } else {
        psize_seq(rows[i]) + msize_from(rows, i + 1)
    }
}

/// The summed column count of the rows from `i` on.
pub open spec fn total_len_from(rows: Seq<Seq<SPat>>, i: int) -> nat
    decreases rows.len() - i,
{
    if i < 0 || i >= rows.len() {
        0
    } else {
        rows[i].len() + total_len_from(rows, i + 1)
    }
}

/// Whether every row from `i` on is or-free, well typed and `k` columns
/// wide.
pub open spec fn rows_ok(cat: TypeCatalog, rows: Seq<Seq<SPat>>, k: int) -> bool {
    forall|j: int|
        0 <= j < rows.len() ==> or_free_seq(#[trigger] rows[j]) && pats_typed(cat, rows[j])
            && rows[j].len() == k
}

/// Whether a matrix is fit for specialization: every row is or-free, well
/// typed against the catalog, as wide as the first one, and typed by the
/// first row's column types.
pub open spec fn matrix_ok(cat: TypeCatalog, rows: Seq<Seq<SPat>>) -> bool {
    rows.len() == 0 || (rows_ok(cat, rows, rows[0].len() as int) && cols_are(
        rows,
        matrix_cols(rows),
        0,
    ))
}

/// Weights split over concatenation.
pub proof fn lemma_psize_seq_concat(a: Seq<SPat>, b: Seq<SPat>)
    ensures
        psize_seq(a + b) == psize_seq(a) + psize_seq(b),
    decreases a.len(),
{
    if a.len() == 0 {
        assert(a + b =~= b);
    } else {
        lemma_psize_seq_concat(a.drop_first(), b);
        assert((a + b).drop_first() =~= a.drop_first() + b);
    }
}

/// Or-freedom distributes over concatenation.
pub proof fn lemma_or_free_seq_concat(a: Seq<SPat>, b: Seq<SPat>)
    ensures
        or_free_seq(a + b) == (or_free_seq(a) && or_free_seq(b)),
    decreases a.len(),
{
    if a.len() == 0 {
        assert(a + b =~= b);
    } else {
        lemma_or_free_seq_concat(a.drop_first(), b);
        assert((a + b).drop_first() =~= a.drop_first() + b);
    }
}

/// Typing distributes over concatenation.
pub proof fn lemma_pats_typed_concat(cat: TypeCatalog, a: Seq<SPat>, b: Seq<SPat>)
    ensures
        pats_typed(cat, a + b) == (pats_typed(cat, a) && pats_typed(cat, b)),
    decreases a.len(),
{
    if a.len() == 0 {
        assert(a + b =~= b);
    } else {
        lemma_pats_typed_concat(cat, a.drop_first(), b);
        assert((a + b).drop_first() =~= a.drop_first() + b);
    }
}

/// Or-freedom of a sequence is or-freedom of each element.
pub proof fn lemma_or_free_seq_index(s: Seq<SPat>)
    ensures
        or_free_seq(s) <==> forall|i: int| 0 <= i < s.len() ==> or_free(#[trigger] s[i]),
    decreases s.len(),
{
    if s.len() > 0 {
        lemma_or_free_seq_index(s.drop_first());
        if or_free(s[0]) && or_free_seq(s.drop_first()) {
            assert forall|i: int| 0 <= i < s.len() implies or_free(#[trigger] s[i]) by {
                if i > 0 {
                    assert(s.drop_first()[i - 1] == s[i]);
                }
            }
        }
        if forall|i: int| 0 <= i < s.len() ==> or_free(#[trigger] s[i]) {
            assert forall|i: int| 0 <= i < s.drop_first().len() implies or_free(
                #[trigger] s.drop_first()[i],
            ) by {
                assert(s.drop_first()[i] == s[i + 1]);
            }
        }
    }
}

/// Typing of a sequence is typing of each element.
pub proof fn lemma_pats_typed_index(cat: TypeCatalog, s: Seq<SPat>)
    ensures
        pats_typed(cat, s) <==> forall|i: int| 0 <= i < s.len() ==> pat_typed(
            cat,
            #[trigger] s[i],
        ),
    decreases s.len(),
{
    if s.len() > 0 {
        lemma_pats_typed_index(cat, s.drop_first());
        if pat_typed(cat, s[0]) && pats_typed(cat, s.drop_first()) {
            assert forall|i: int| 0 <= i < s.len() implies pat_typed(cat, #[trigger] s[i]) by {
                if i > 0 {
                    assert(s.drop_first()[i - 1] == s[i]);
                }
            }
        }
        if forall|i: int| 0 <= i < s.len() ==> pat_typed(cat, #[trigger] s[i]) {
            assert forall|i: int| 0 <= i < s.drop_first().len() implies pat_typed(
                cat,
                #[trigger] s.drop_first()[i],
            ) by {
                assert(s.drop_first()[i] == s[i + 1]);
            }
        }
    }
}

/// Phi-specialization of one row for constructor `c`: a wildcard head
/// expands into one wildcard per field of `c`; a head matching `c` exposes
/// its sub-patterns; a different constructor drops the row; an or-pattern
/// head splits into one row per alternative.
pub open spec fn spec_phi_row(cat: TypeCatalog, c: ConstructorKind, row: Seq<SPat>) -> Seq<
    Seq<SPat>,
>
    decreases psize_seq(row), 0int, 0int,
{
    if row.len() == 0 {
        Seq::empty()
    } else {
        match row[0].kind {
            SPatKind::Wild => seq![wild_fields(c.spec_field_types(cat)) + row.drop_first()],
            SPatKind::Ctor { ctor, fields } => if ctor == c {
                seq![fields + row.drop_first()]
            } else {
                Seq::empty()
            },
            SPatKind::Or(ps) => {
                proof {
                    assert(psize(row[0]) == 1 + psize_seq(ps));
                    assert(psize_seq(row) == psize(row[0]) + psize_seq(row.drop_first()));
                }
                spec_phi_alts(cat, c, ps, row.drop_first())
            },
        }
    }
}

/// Phi-specialization of the rows obtained by replacing an or-pattern head
/// with each of its alternatives in turn.
pub open spec fn spec_phi_alts(
    cat: TypeCatalog,
    c: ConstructorKind,
    alts: Seq<SPat>,
    rest: Seq<SPat>,
) -> Seq<Seq<SPat>>
    decreases psize_seq(alts) + psize_seq(rest), 1int, alts.len(),
{
    if alts.len() == 0 {
        Seq::empty()
    } else {
        let head_row = seq![alts[0]] + rest;
        proof {
            assert(head_row.drop_first() =~= rest);
            lemma_psize_seq_concat(seq![alts[0]], rest);
            assert(psize_seq(seq![alts[0]]) == psize(alts[0]) + psize_seq(
                seq![alts[0]].drop_first(),
            ));
            assert(seq![alts[0]].drop_first() =~= Seq::<SPat>::empty());
        }
        spec_phi_row(cat, c, head_row) + spec_phi_alts(cat, c, alts.drop_first(), rest)
    }
}

/// Default-specialization of one row: a wildcard head is dropped and the
/// rest kept; a constructor head drops the row; an or-pattern head splits
/// into one row per alternative.
pub open spec fn spec_d_row(row: Seq<SPat>) -> Seq<Seq<SPat>>
    decreases psize_seq(row), 0int, 0int,
{
    if row.len() == 0 {
        Seq::empty()
    } else {
        match row[0].kind {
            SPatKind::Wild => seq![row.drop_first()],
            SPatKind::Ctor { ctor, fields } => Seq::empty(),
            SPatKind::Or(ps) => {
                proof {
                    assert(psize(row[0]) == 1 + psize_seq(ps));
                    assert(psize_seq(row) == psize(row[0]) + psize_seq(row.drop_first()));
                }
                spec_d_alts(ps, row.drop_first())
            },
        }
    }
}

/// Default-specialization over an or-pattern head's alternatives.
pub open spec fn spec_d_alts(alts: Seq<SPat>, rest: Seq<SPat>) -> Seq<Seq<SPat>>
    decreases psize_seq(alts) + psize_seq(rest), 1int, alts.len(),
{
    if alts.len() == 0 {
        Seq::empty()
    } else {
        let head_row = seq![alts[0]] + rest;
        proof {
            assert(head_row.drop_first() =~= rest);
            lemma_psize_seq_concat(seq![alts[0]], rest);
            assert(seq![alts[0]].drop_first() =~= Seq::<SPat>::empty());
        }
        spec_d_row(head_row) + spec_d_alts(alts.drop_first(), rest)
    }
}

/// Phi-specialization of the rows from `i` on, in row order.
pub open spec fn spec_phi_from(
    cat: TypeCatalog,
    c: ConstructorKind,
    rows: Seq<Seq<SPat>>,
    i: int,
) -> Seq<Seq<SPat>>
    decreases rows.len() - i,
{
    if i < 0 || i >= rows.len() {
        Seq::empty()
    } else {
        spec_phi_row(cat, c, rows[i]) + spec_phi_from(cat, c, rows, i + 1)
    }
}

/// Default-specialization of the rows from `i` on, in row order.
pub open spec fn spec_d_from(rows: Seq<Seq<SPat>>, i: int) -> Seq<Seq<SPat>>
    decreases rows.len() - i,
{
    if i < 0 || i >= rows.len() {
        Seq::empty()
    } else {
        spec_d_row(rows[i]) + spec_d_from(rows, i + 1)
    }
}

/// What phi-specialization makes of one or-free, well typed row: nothing,
/// or a single row whose weight does not grow — and shrinks strictly when
/// the head is the specialized constructor.
pub proof fn lemma_phi_row_props(cat: TypeCatalog, c: ConstructorKind, row: Seq<SPat>)
    requires
        row.len() > 0,
        or_free_seq(row),
        pats_typed(cat, row),
        c.spec_holds_in(cat),
    ensures
        spec_phi_row(cat, c, row).len() <= 1,
        forall|j: int|
            0 <= j < spec_phi_row(cat, c, row).len() ==> {
                let out = #[trigger] spec_phi_row(cat, c, row)[j];
                &&& or_free_seq(out)
                &&& pats_typed(cat, out)
                &&& out.len() == c.spec_field_types(cat).len() + row.len() - 1
                &&& psize_seq(out) <= psize_seq(row)
            },
        (row[0].kind matches SPatKind::Ctor { ctor, fields } && ctor == c) ==> (spec_phi_row(
            cat,
            c,
            row,
        ).len() == 1 && psize_seq(spec_phi_row(cat, c, row)[0]) < psize_seq(row)),
{
    assert(or_free(row[0]) && or_free_seq(row.drop_first()));
    assert(pat_typed(cat, row[0]) && pats_typed(cat, row.drop_first()));
    assert(psize_seq(row) == psize(row[0]) + psize_seq(row.drop_first()));
    match row[0].kind {
        SPatKind::Wild => {
            let wilds = wild_fields(c.spec_field_types(cat));
            let out = wilds + row.drop_first();
            lemma_wild_fields_props(cat, c.spec_field_types(cat));
            lemma_psize_seq_concat(wilds, row.drop_first());
            lemma_or_free_seq_concat(wilds, row.drop_first());
            lemma_pats_typed_concat(cat, wilds, row.drop_first());
            assert(psize(row[0]) == 0);
            assert(spec_phi_row(cat, c, row) =~= seq![out]);
            assert forall|j: int| 0 <= j < spec_phi_row(cat, c, row).len() implies {
                let o = #[trigger] spec_phi_row(cat, c, row)[j];
                &&& or_free_seq(o)
                &&& pats_typed(cat, o)
                &&& o.len() == c.spec_field_types(cat).len() + row.len() - 1
                &&& psize_seq(o) <= psize_seq(row)
            } by {
                assert(spec_phi_row(cat, c, row)[j] == out);
            }
        },
        SPatKind::Ctor { ctor, fields } => {
            assert(psize(row[0]) == 1 + psize_seq(fields));
            if ctor == c {
                let out = fields + row.drop_first();
                lemma_psize_seq_concat(fields, row.drop_first());
                lemma_or_free_seq_concat(fields, row.drop_first());
                lemma_pats_typed_concat(cat, fields, row.drop_first());
                assert(or_free_seq(fields));
                assert(pats_typed(cat, fields));
                assert(fields.len() == c.spec_field_types(cat).len());
                assert(spec_phi_row(cat, c, row) =~= seq![out]);
                assert forall|j: int| 0 <= j < spec_phi_row(cat, c, row).len() implies {
                    let o = #[trigger] spec_phi_row(cat, c, row)[j];
                    &&& or_free_seq(o)
                    &&& pats_typed(cat, o)
                    &&& o.len() == c.spec_field_types(cat).len() + row.len() - 1
                    &&& psize_seq(o) <= psize_seq(row)
                } by {
                    assert(spec_phi_row(cat, c, row)[j] == out);
                }
            } else {
                assert(spec_phi_row(cat, c, row) =~= Seq::<Seq<SPat>>::empty());
            }
        },
        SPatKind::Or(ps) => {
            assert(false);
        },
    }
}

/// A sequence of wildcards weighs nothing, is or-free and is well typed.
pub proof fn lemma_wild_fields_props(cat: TypeCatalog, tys: Seq<TypeId>)
    ensures
        psize_seq(wild_fields(tys)) == 0,
        or_free_seq(wild_fields(tys)),
        pats_typed(cat, wild_fields(tys)),
        wild_fields(tys).len() == tys.len(),
    decreases tys.len(),
{
    if tys.len() > 0 {
        lemma_wild_fields_props(cat, tys.drop_first());
        assert(wild_fields(tys).drop_first() =~= wild_fields(tys.drop_first()));
        assert(wild_fields(tys)[0] == SPat { kind: SPatKind::Wild, ty: tys[0] });
        assert(psize(wild_fields(tys)[0]) == 0);
        assert(psize_seq(wild_fields(tys)) == psize(wild_fields(tys)[0]) + psize_seq(
            wild_fields(tys).drop_first(),
        ));
        assert(or_free(wild_fields(tys)[0]));
        assert(pat_typed(cat, wild_fields(tys)[0]));
    } else {
        assert(wild_fields(tys).len() == 0);
        assert(psize_seq(wild_fields(tys)) == 0);
        assert(or_free_seq(wild_fields(tys)));
        assert(pats_typed(cat, wild_fields(tys)));
    }
}

/// What default-specialization makes of one or-free, well typed row:
/// nothing for a constructor head, the tail for a wildcard head.
pub proof fn lemma_d_row_props(cat: TypeCatalog, row: Seq<SPat>)
    requires
        row.len() > 0,
        or_free_seq(row),
        pats_typed(cat, row),
    ensures
        row[0].kind is Wild ==> spec_d_row(row) == seq![row.drop_first()] && psize_seq(
            row.drop_first(),
        ) == psize_seq(row),
        row[0].kind is Ctor ==> spec_d_row(row) == Seq::<Seq<SPat>>::empty() && psize_seq(row) > 0,
        or_free_seq(row.drop_first()),
        pats_typed(cat, row.drop_first()),
{
    assert(or_free(row[0]) && or_free_seq(row.drop_first()));
    assert(pats_typed(cat, row.drop_first()));
    assert(psize_seq(row) == psize(row[0]) + psize_seq(row.drop_first()));
    match row[0].kind {
        SPatKind::Wild => {
            assert(psize(row[0]) == 0);
        },
        SPatKind::Ctor { ctor, fields } => {
            assert(psize(row[0]) == 1 + psize_seq(fields));
        },
        SPatKind::Or(ps) => {
            assert(false);
        },
    }
}

/// Phi-specialization of an or-free, well typed, uniform block of rows:
/// or-free, well typed, uniform at the specialized width, never heavier —
/// and strictly lighter when some row's head is the specialized
/// constructor.
pub proof fn lemma_phi_from_props(
    cat: TypeCatalog,
    c: ConstructorKind,
    rows: Seq<Seq<SPat>>,
    k: int,
    i: int,
)
    requires
        0 <= i <= rows.len(),
        k > 0,
        rows_ok(cat, rows, k),
        c.spec_holds_in(cat),
    ensures
        msize_from(spec_phi_from(cat, c, rows, i), 0) <= msize_from(rows, i),
        rows_ok(cat, spec_phi_from(cat, c, rows, i), c.spec_field_types(cat).len() + k - 1),
        (exists|j: int|
            i <= j < rows.len() && ((#[trigger] rows[j])[0].kind matches SPatKind::Ctor {
                ctor,
                fields,
            } && ctor == c)) ==> msize_from(spec_phi_from(cat, c, rows, i), 0) < msize_from(
            rows,
            i,
        ),
    decreases rows.len() - i,
{
    if i < rows.len() {
        lemma_phi_from_props(cat, c, rows, k, i + 1);
        lemma_phi_row_props(cat, c, rows[i]);
        let head = spec_phi_row(cat, c, rows[i]);
        let tail = spec_phi_from(cat, c, rows, i + 1);
        lemma_msize_concat(head, tail);
        lemma_rows_ok_concat(cat, head, tail, c.spec_field_types(cat).len() + k - 1);
        assert(rows_ok(cat, head, c.spec_field_types(cat).len() + k - 1)) by {
            assert forall|j: int| 0 <= j < head.len() implies or_free_seq(#[trigger] head[j])
                && pats_typed(cat, head[j]) && head[j].len() == c.spec_field_types(cat).len() + k
                - 1 by {
                assert(head[j] == spec_phi_row(cat, c, rows[i])[j]);
            }
        }
        if head.len() > 0 {
            assert(psize_seq(head[0]) <= psize_seq(rows[i]));
            assert(msize_from(head, 0) == psize_seq(head[0]) + msize_from(head, 1));
            assert(msize_from(head, 1) == 0);
        }
        assert(msize_from(rows, i) == psize_seq(rows[i]) + msize_from(rows, i + 1));
        if exists|j: int|
            i <= j < rows.len() && ((#[trigger] rows[j])[0].kind matches SPatKind::Ctor {
                ctor,
                fields,
            } && ctor == c) {
            let j = choose|j: int|
                i <= j < rows.len() && ((#[trigger] rows[j])[0].kind matches SPatKind::Ctor {
                    ctor,
                    fields,
                } && ctor == c);
            if j == i {
                assert(head.len() == 1 && psize_seq(head[0]) < psize_seq(rows[i]));
            } else {
                assert(exists|j2: int|
                    i + 1 <= j2 < rows.len() && ((#[trigger] rows[j2])[0].kind
                        matches SPatKind::Ctor { ctor, fields } && ctor == c)) by {
                    assert(i + 1 <= j < rows.len() && ((rows[j])[0].kind matches SPatKind::Ctor {
                        ctor,
                        fields,
                    } && ctor == c));
                }
            }
        }
    }
}

/// Default-specialization of an or-free, well typed, uniform block of rows:
/// or-free, well typed, one column narrower, never heavier; strictly
/// lighter when some head is a constructor; when every head is a wildcard,
/// exactly one one-shorter row per row.
pub proof fn lemma_d_from_props(cat: TypeCatalog, rows: Seq<Seq<SPat>>, k: int, i: int)
    requires
        0 <= i <= rows.len(),
        k > 0,
        rows_ok(cat, rows, k),
    ensures
        msize_from(spec_d_from(rows, i), 0) <= msize_from(rows, i),
        rows_ok(cat, spec_d_from(rows, i), k - 1),
        (exists|j: int| i <= j < rows.len() && (#[trigger] rows[j])[0].kind is Ctor) ==> msize_from(
            spec_d_from(rows, i),
            0,
        ) < msize_from(rows, i),
        (forall|j: int| i <= j < rows.len() ==> (#[trigger] rows[j])[0].kind is Wild)
            ==> spec_d_from(rows, i).len() == rows.len() - i && total_len_from(
            spec_d_from(rows, i),
            0,
        ) + (rows.len() - i) == total_len_from(rows, i),
    decreases rows.len() - i,
{
    if i < rows.len() {
        lemma_d_from_props(cat, rows, k, i + 1);
        lemma_d_row_props(cat, rows[i]);
        let head = spec_d_row(rows[i]);
        let tail = spec_d_from(rows, i + 1);
        lemma_msize_concat(head, tail);
        lemma_total_len_concat(head, tail);
        assert(or_free_seq(rows[i]) && rows[i].len() == k);
        if rows[i][0].kind is Or {
            assert(or_free(rows[i][0]));
            assert(false);
        }
        assert(rows_ok(cat, head, k - 1)) by {
            if rows[i][0].kind is Wild {
                assert(head =~= seq![rows[i].drop_first()]);
                assert forall|j: int| 0 <= j < head.len() implies or_free_seq(#[trigger] head[j])
                    && pats_typed(cat, head[j]) && head[j].len() == k - 1 by {
                    assert(head[j] == rows[i].drop_first());
                }
            }
        }
        lemma_rows_ok_concat(cat, head, tail, k - 1);
        assert(msize_from(rows, i) == psize_seq(rows[i]) + msize_from(rows, i + 1));
        assert(total_len_from(rows, i) == rows[i].len() + total_len_from(rows, i + 1));
        if rows[i][0].kind is Wild {
            assert(msize_from(head, 0) == psize_seq(rows[i].drop_first()) + msize_from(head, 1));
            assert(msize_from(head, 1) == 0);
            assert(total_len_from(head, 0) == rows[i].drop_first().len() + total_len_from(
                head,
                1,
            ));
        }
        if exists|j: int| i <= j < rows.len() && (#[trigger] rows[j])[0].kind is Ctor {
            let j = choose|j: int| i <= j < rows.len() && (#[trigger] rows[j])[0].kind is Ctor;
            if j > i {
                assert(exists|j2: int|
                    i + 1 <= j2 < rows.len() && (#[trigger] rows[j2])[0].kind is Ctor);
            }
        }
    }
}

/// Weights of matrices split over concatenation.
pub proof fn lemma_msize_concat(a: Seq<Seq<SPat>>, b: Seq<Seq<SPat>>)
    ensures
        msize_from(a + b, 0) == msize_from(a, 0) + msize_from(b, 0),
    decreases a.len(),
{
    if a.len() == 0 {
        assert(a + b =~= b);
    } else {
        lemma_msize_concat(a.drop_first(), b);
        assert((a + b).drop_first() =~= a.drop_first() + b);
        lemma_msize_shift(a + b);
        lemma_msize_shift(a);
    }
}

/// Total widths of matrices split over concatenation.
pub proof fn lemma_total_len_concat(a: Seq<Seq<SPat>>, b: Seq<Seq<SPat>>)
    ensures
        total_len_from(a + b, 0) == total_len_from(a, 0) + total_len_from(b, 0),
    decreases a.len(),
{
    if a.len() == 0 {
        assert(a + b =~= b);
    } else {
        lemma_total_len_concat(a.drop_first(), b);
        assert((a + b).drop_first() =~= a.drop_first() + b);
        lemma_total_len_shift(a + b);
        lemma_total_len_shift(a);
    }
}

/// A matrix weight unrolls one row at the front.
proof fn lemma_msize_shift(rows: Seq<Seq<SPat>>)
    requires
        rows.len() > 0,
    ensures
        msize_from(rows, 0) == psize_seq(rows[0]) + msize_from(rows.drop_first(), 0),
    decreases rows.len(),
{
    lemma_msize_from_drop(rows, 1);
}

/// A total width unrolls one row at the front.
proof fn lemma_total_len_shift(rows: Seq<Seq<SPat>>)
    requires
        rows.len() > 0,
    ensures
        total_len_from(rows, 0) == rows[0].len() + total_len_from(rows.drop_first(), 0),
    decreases rows.len(),
{
    lemma_total_len_from_drop(rows, 1);
}

/// The suffix weight from `i` equals the weight of the dropped-front
/// matrix's suffix.
proof fn lemma_msize_from_drop(rows: Seq<Seq<SPat>>, i: int)
    requires
        1 <= i <= rows.len(),
    ensures
        msize_from(rows, i) == msize_from(rows.drop_first(), i - 1),
    decreases rows.len() - i,
{
    if i < rows.len() {
        lemma_msize_from_drop(rows, i + 1);
        assert(rows.drop_first()[i - 1] == rows[i]);
    }
}

/// The suffix width from `i` equals the width of the dropped-front matrix's
/// suffix.
proof fn lemma_total_len_from_drop(rows: Seq<Seq<SPat>>, i: int)
    requires
        1 <= i <= rows.len(),
    ensures
        total_len_from(rows, i) == total_len_from(rows.drop_first(), i - 1),
    decreases rows.len() - i,
{
    if i < rows.len() {
        lemma_total_len_from_drop(rows, i + 1);
        assert(rows.drop_first()[i - 1] == rows[i]);
    }
}

/// Row blocks that are each or-free, well typed and `k` wide concatenate to
/// such a block.
pub proof fn lemma_rows_ok_concat(cat: TypeCatalog, a: Seq<Seq<SPat>>, b: Seq<Seq<SPat>>, k: int)
    requires
        rows_ok(cat, a, k),
        rows_ok(cat, b, k),
    ensures
        rows_ok(cat, a + b, k),
{
    assert forall|j: int| 0 <= j < (a + b).len() implies or_free_seq(#[trigger] (a + b)[j])
        && pats_typed(cat, (a + b)[j]) && (a + b)[j].len() == k by {
        if j < a.len() {
            assert((a + b)[j] == a[j]);
        } else {
            assert((a + b)[j] == b[j - a.len()]);
        }
    }
}


/// Inserts `c` unless it is already there, keeping first-appearance order.
pub open spec fn spec_insert_ctor(acc: Seq<ConstructorKind>, c: ConstructorKind) -> Seq<
    ConstructorKind,
> {
    if acc.contains(c) {
        acc
    } else {
        acc.push(c)
    }
}

/// Inserts the first `j` of `cs`, in order.
pub open spec fn spec_insert_ctors_prefix(
    acc: Seq<ConstructorKind>,
    cs: Seq<ConstructorKind>,
    j: int,
) -> Seq<ConstructorKind>
    decreases j,
{
    if j <= 0 {
        acc
    } else {
        spec_insert_ctor(spec_insert_ctors_prefix(acc, cs, j - 1), cs[j - 1])
    }
}

/// The sigma set of the first `i` rows: the distinct head constructors in
/// first-appearance order, or-alternatives expanded.
pub open spec fn spec_sigma_prefix(rows: Seq<Seq<SPat>>, i: int) -> Seq<ConstructorKind>
    decreases i,
{
    if i <= 0 {
        Seq::empty()
    } else {
        let prev = spec_sigma_prefix(rows, i - 1);
        let cs = crate::pattern::spec_collect_ctors(rows[i - 1][0]);
        spec_insert_ctors_prefix(prev, cs, cs.len() as int)
    }
}

/// The sigma set of a matrix.
pub open spec fn spec_sigma(rows: Seq<Seq<SPat>>) -> Seq<ConstructorKind> {
    spec_sigma_prefix(rows, rows.len() as int)
}

/// Whether some row of `rows` has `c` as its head constructor.
pub open spec fn ctor_heads_some_row(rows: Seq<Seq<SPat>>, c: ConstructorKind) -> bool {
    exists|j: int|
        0 <= j < rows.len() && ((#[trigger] rows[j])[0].kind matches SPatKind::Ctor {
            ctor,
            fields,
        } && ctor == c)
}

/// Whether every member of `sigma` heads some row of `rows`.
pub open spec fn sigma_grounded(rows: Seq<Seq<SPat>>, sigma: Seq<ConstructorKind>) -> bool {
    forall|x: int| 0 <= x < sigma.len() ==> ctor_heads_some_row(rows, #[trigger] sigma[x])
}

/// Members surviving insertion come from the accumulator or the inserted
/// block.
proof fn lemma_insert_ctors_members(
    acc: Seq<ConstructorKind>,
    cs: Seq<ConstructorKind>,
    j: int,
    c: ConstructorKind,
)
    requires
        0 <= j <= cs.len(),
        spec_insert_ctors_prefix(acc, cs, j).contains(c),
    ensures
        acc.contains(c) || cs.contains(c),
    decreases j,
{
    if j > 0 {
        let prev = spec_insert_ctors_prefix(acc, cs, j - 1);
        if prev.contains(c) {
            lemma_insert_ctors_members(acc, cs, j - 1, c);
        } else {
            assert(spec_insert_ctor(prev, cs[j - 1]) == prev.push(cs[j - 1]) || spec_insert_ctor(
                prev,
                cs[j - 1],
            ) == prev);
            if spec_insert_ctor(prev, cs[j - 1]).contains(c) && !prev.contains(c) {
                let k = choose|k: int|
                    0 <= k < spec_insert_ctor(prev, cs[j - 1]).len() && #[trigger] spec_insert_ctor(
                        prev,
                        cs[j - 1],
                    )[k] == c;
                if spec_insert_ctor(prev, cs[j - 1]) == prev.push(cs[j - 1]) {
                    if k < prev.len() {
                        assert(prev[k] == c);
                    } else {
                        assert(c == cs[j - 1]);
                    }
                }
            }
        }
    }
}

/// A collected constructor of an or-free pattern is the pattern's own head
/// constructor.
proof fn lemma_collect_ctors_or_free(p: SPat, c: ConstructorKind)
    requires
        or_free(p),
        crate::pattern::spec_collect_ctors(p).contains(c),
    ensures
        p.kind matches SPatKind::Ctor { ctor, fields } && ctor == c,
{
    match p.kind {
        SPatKind::Wild => {
            assert(false);
        },
        SPatKind::Ctor { ctor, fields } => {
            assert(seq![ctor][0] == ctor);
        },
        SPatKind::Or(_) => {
            assert(false);
        },
    }
}

/// Every member of a matrix's sigma set heads some row of the matrix.
pub proof fn lemma_sigma_grounded(rows: Seq<Seq<SPat>>, k: int, cat: TypeCatalog, i: int)
    requires
        0 <= i <= rows.len(),
        k > 0,
        rows_ok(cat, rows, k),
    ensures
        sigma_grounded(rows, spec_sigma_prefix(rows, i)),
    decreases i,
{
    if i <= 0 {
        assert(spec_sigma_prefix(rows, i) =~= Seq::<ConstructorKind>::empty());
    } else {
        lemma_sigma_grounded(rows, k, cat, i - 1);
        let prev = spec_sigma_prefix(rows, i - 1);
        let cs = crate::pattern::spec_collect_ctors(rows[i - 1][0]);
        let cur = spec_insert_ctors_prefix(prev, cs, cs.len() as int);
        assert forall|x: int| 0 <= x < cur.len() implies ctor_heads_some_row(
            rows,
            #[trigger] cur[x],
        ) by {
            lemma_insert_ctors_members(prev, cs, cs.len() as int, cur[x]);
            if prev.contains(cur[x]) {
                let y = choose|y: int| 0 <= y < prev.len() && #[trigger] prev[y] == cur[x];
                assert(ctor_heads_some_row(rows, prev[y]));
            } else {
                crate::exhaustiveness::lemma_or_free_head(rows, k, cat, i - 1);
                lemma_collect_ctors_or_free(rows[i - 1][0], cur[x]);
                assert(0 <= i - 1 < rows.len() && ((rows[i - 1])[0].kind matches SPatKind::Ctor {
                    ctor,
                    fields,
                } && ctor == cur[x]));
            }
        }
        assert(sigma_grounded(rows, cur));
        assert(spec_sigma_prefix(rows, i) == cur);
    }
}

/// The head pattern of an or-free row block is or-free.
pub proof fn lemma_or_free_head(rows: Seq<Seq<SPat>>, k: int, cat: TypeCatalog, j: int)
    requires
        rows_ok(cat, rows, k),
        k > 0,
        0 <= j < rows.len(),
    ensures
        or_free(rows[j][0]),
        pat_typed(cat, rows[j][0]),
{
    lemma_or_free_seq_index(rows[j]);
    lemma_pats_typed_index(cat, rows[j]);
}

/// A sigma member of a typed matrix names an actual variant of the
/// catalog, of the first column's type.
pub proof fn lemma_sigma_member_typed(
    rows: Seq<Seq<SPat>>,
    k: int,
    cat: TypeCatalog,
    sigma: Seq<ConstructorKind>,
    x: int,
)
    requires
        rows_ok(cat, rows, k),
        k > 0,
        sigma_grounded(rows, sigma),
        0 <= x < sigma.len(),
    ensures
        sigma[x].spec_holds_in(cat),
        (rows.len() > 0 && cols_are(rows, matrix_cols(rows), 0)) ==> sigma[x].spec_ty()
            == rows[0][0].ty,
{
    assert(ctor_heads_some_row(rows, sigma[x]));
    let j = choose|j: int|
        0 <= j < rows.len() && ((#[trigger] rows[j])[0].kind matches SPatKind::Ctor {
            ctor,
            fields,
        } && ctor == sigma[x]);
    lemma_or_free_head(rows, k, cat, j);
    if rows.len() > 0 && cols_are(rows, matrix_cols(rows), 0) {
        assert(rows[j][0].ty == matrix_cols(rows)[0]);
        assert(rows[0][0].ty == matrix_cols(rows)[0]);
    }
}


/// The declaration of indexmap's insertion-ordered set, so that values of it
/// can stand in signatures; the set itself stays opaque to the verifier.
#[verifier::external_type_specification]
#[verifier::external_body]
#[verifier::reject_recursive_types(T)]
#[verifier::reject_recursive_types(S)]
pub struct ExIndexSet<T, S>(indexmap::IndexSet<T, S>);

/// What an insertion-ordered set of constructor codes holds, in insertion
/// order.
pub uninterp spec fn index_set_elems(s: indexmap::IndexSet<u64>) -> Seq<u64>;

/// Relies on indexmap::IndexSet::new: the new set is empty.
#[verifier::external_body]
fn ctor_set_new() -> (s: indexmap::IndexSet<u64>)
    ensures
        index_set_elems(s) == Seq::<u64>::empty(),
{
    indexmap::IndexSet::new()
}

/// Relies on indexmap::IndexSet::insert: an equivalent value already in the
/// set leaves it unchanged, without altering its insertion order, and
/// returns false; a new value is inserted at the end and returns true.
#[verifier::external_body]
fn ctor_set_insert(s: &mut indexmap::IndexSet<u64>, v: u64) -> (r: bool)
    ensures
        r == !index_set_elems(*old(s)).contains(v),
        index_set_elems(*final(s)) == if index_set_elems(*old(s)).contains(v) {
            index_set_elems(*old(s))
        } else {
            index_set_elems(*old(s)).push(v)
        },
{
    s.insert(v)
}

/// A constructor as a single integer code: the enum type id in the upper
/// half, the variant index in the lower half.
pub open spec fn spec_enc(c: ConstructorKind) -> u64 {
    match c {
        ConstructorKind::Variant(v) => ((v.ty.0 as int) * 0x1_0000_0000 + (v.idx as int)) as u64,
    }
}

/// The integer coding of constructors never collides.
proof fn lemma_enc_injective(a: ConstructorKind, b: ConstructorKind)
    requires
        spec_enc(a) == spec_enc(b),
    ensures
        a == b,
{
    let ConstructorKind::Variant(va) = a;
    let ConstructorKind::Variant(vb) = b;
    assert((va.ty.0 as int) * 0x1_0000_0000 + (va.idx as int) == (vb.ty.0 as int) * 0x1_0000_0000
        + (vb.idx as int)) by {
        assert((va.ty.0 as int) * 0x1_0000_0000 + (va.idx as int) < 0x1_0000_0000_0000_0000) by (nonlinear_arith)
            requires va.ty.0 <= 0xFFFF_FFFFu32 && va.idx <= 0xFFFF_FFFFu32;
        assert((vb.ty.0 as int) * 0x1_0000_0000 + (vb.idx as int) < 0x1_0000_0000_0000_0000) by (nonlinear_arith)
            requires vb.ty.0 <= 0xFFFF_FFFFu32 && vb.idx <= 0xFFFF_FFFFu32;
    }
    assert(va.ty.0 == vb.ty.0 && va.idx == vb.idx) by (nonlinear_arith)
        requires
            (va.ty.0 as int) * 0x1_0000_0000 + (va.idx as int) == (vb.ty.0 as int) * 0x1_0000_0000
                + (vb.idx as int),
            va.idx < 0x1_0000_0000,
            vb.idx < 0x1_0000_0000,
    ;
}

/// Coded membership matches constructor membership.
proof fn lemma_coded_contains(ctors: Seq<ConstructorKind>, c: ConstructorKind)
    ensures
        ctors.map_values(|x: ConstructorKind| spec_enc(x)).contains(spec_enc(c)) <==> ctors.contains(
            c,
        ),
{
    let coded = ctors.map_values(|x: ConstructorKind| spec_enc(x));
    if coded.contains(spec_enc(c)) {
        let y = choose|y: int| 0 <= y < coded.len() && coded[y] == spec_enc(c);
        lemma_enc_injective(ctors[y], c);
        assert(ctors.contains(c)) by {
            assert(ctors[y] == c);
        }
    }
    if ctors.contains(c) {
        let y = choose|y: int| 0 <= y < ctors.len() && ctors[y] == c;
        assert(coded[y] == spec_enc(c));
    }
}

/// The integer code of a constructor.
fn encode_ctor(c: ConstructorKind) -> (r: u64)
    ensures
        r == spec_enc(c),
{
    match c {
        ConstructorKind::Variant(v) => {
            proof {
                assert((v.ty.0 as int) * 0x1_0000_0000 + (v.idx as int)
                    <= 0xFFFF_FFFF_FFFF_FFFFint) by (nonlinear_arith)
                    requires v.ty.0 <= 0xFFFF_FFFFu32 && v.idx <= 0xFFFF_FFFFu32;
            }
            (v.ty.0 as u64) * 0x1_0000_0000u64 + (v.idx as u64)
        },
    }
}

impl PatternRowVec {
    /// Builds a row from its patterns.
    pub fn new(inner: Vec<SimplifiedPattern>) -> (r: PatternRowVec)
        ensures
            r@ == pats_view(inner@),
    {
        PatternRowVec { inner }
    }

    /// How many columns the row has.
    pub fn size(&self) -> (r: usize)
        ensures
            r == self@.len(),
    {
        proof {
            crate::pattern::lemma_pats_view_len(self.inner@);
        }
        self.inner.len()
    }

    /// The type of the row's first pattern.
    pub fn first_column_ty(&self) -> (r: TypeId)
        requires
            self@.len() > 0,
        ensures
            r == self@[0].ty,
    {
        proof {
            crate::pattern::lemma_pats_view_len(self.inner@);
            crate::pattern::lemma_pats_view_index(self.inner@, 0);
        }
        self.inner[0].ty
    }

    /// The constructors the row's head pattern can match.
    pub fn collect_first_elem_ctors(&self) -> (r: Vec<ConstructorKind>)
        requires
            self@.len() > 0,
        ensures
            r@ == crate::pattern::spec_collect_ctors(self@[0]),
    {
        proof {
            crate::pattern::lemma_pats_view_len(self.inner@);
            crate::pattern::lemma_pats_view_index(self.inner@, 0);
        }
        self.inner[0].kind.collect_ctors(self.inner[0].ty)
    }

    /// Phi-specialization of the row; or-pattern heads are split into
    /// separate rows before a matrix is specialized, so this row is or-free.
    pub fn phi_specialize(&self, cat: &TypeCatalog, ctor: ConstructorKind) -> (r: Vec<
        PatternRowVec,
    >)
        requires
            self@.len() > 0,
            or_free_seq(self@),
            ctor.spec_holds_in(*cat),
        ensures
            rows_view(r@) == spec_phi_row(*cat, ctor, self@),
    {
        proof {
            crate::pattern::lemma_pats_view_len(self.inner@);
            crate::pattern::lemma_pats_view_index(self.inner@, 0);
            assert(or_free(self@[0]));
        }
        let mut out: Vec<PatternRowVec> = Vec::new();
        match &self.inner[0].kind {
            SimplifiedPatternKind::WildCard => {
                let tys = ctor.field_types(cat);
                let mut row: Vec<SimplifiedPattern> = Vec::new();
                let mut i: usize = 0;
                while i < tys.len()
                    invariant
                        0 <= i <= tys@.len(),
                        row@.len() == i,
                        forall|m: int| 0 <= m < i ==> pat_view(#[trigger] row@[m]) == (SPat {
                            kind: SPatKind::Wild,
                            ty: tys@[m],
                        }),
                    decreases tys@.len() - i,
                {
                    row.push(SimplifiedPattern::wild_card(tys[i]));
                    i = i + 1;
                }
                self.push_tail(&mut row, 1);
                let ghost expected = wild_fields(ctor.spec_field_types(*cat)) + self@.drop_first();
                proof {
                    assert(pats_view(row@) =~= expected) by {
                        lemma_pats_view_split(row@, tys@.len() as int, expected);
                    }
                }
                out.push(PatternRowVec { inner: row });
                proof {
                    assert(rows_view(out@) =~= spec_phi_row(*cat, ctor, self@));
                }
            },
            SimplifiedPatternKind::Constructor { kind, fields } => {
                if *kind == ctor {
                    let mut row = crate::pattern::clone_pats(fields);
                    let ghost cloned = row@;
                    let ghost nfields = row@.len() as int;
                    self.push_tail(&mut row, 1);
                    let ghost expected = self@[0].kind->Ctor_fields + self@.drop_first();
                    proof {
                        crate::pattern::lemma_pats_view_len(fields@);
                        crate::pattern::lemma_pats_view_len(cloned);
                        assert(self@[0].kind->Ctor_fields =~= pats_view(fields@));
                        assert(expected.len() == row@.len());
                        assert forall|m: int| 0 <= m < nfields implies pat_view(#[trigger] row@[m])
                            == expected[m] by {
                            assert(row@[m] == cloned[m]);
                            crate::pattern::lemma_pats_view_index(cloned, m);
                            crate::pattern::lemma_pats_view_index(fields@, m);
                        }
                        lemma_pats_view_split(row@, nfields, expected);
                        assert(pats_view(row@) =~= expected);
                    }
                    out.push(PatternRowVec { inner: row });
                    proof {
                        assert(rows_view(out@) =~= spec_phi_row(*cat, ctor, self@));
                    }
                } else {
                    proof {
                        assert(rows_view(out@) =~= spec_phi_row(*cat, ctor, self@));
                    }
                }
            },
            SimplifiedPatternKind::Or(_) => {
                proof {
                    assert(false);
                }
            },
        }
        out
    }

    /// Default-specialization of the row; like phi-specialization, the row
    /// is or-free by the time a matrix is specialized.
    pub fn d_specialize(&self) -> (r: Vec<PatternRowVec>)
        requires
            self@.len() > 0,
            or_free_seq(self@),
        ensures
            rows_view(r@) == spec_d_row(self@),
    {
        proof {
            crate::pattern::lemma_pats_view_len(self.inner@);
            crate::pattern::lemma_pats_view_index(self.inner@, 0);
            assert(or_free(self@[0]));
        }
        let mut out: Vec<PatternRowVec> = Vec::new();
        match &self.inner[0].kind {
            SimplifiedPatternKind::WildCard => {
                let mut row: Vec<SimplifiedPattern> = Vec::new();
                self.push_tail(&mut row, 1);
                proof {
                    assert(pats_view(row@) =~= self@.drop_first()) by {
                        lemma_pats_view_split(row@, 0, self@.drop_first());
                    }
                }
                out.push(PatternRowVec { inner: row });
                proof {
                    assert(rows_view(out@) =~= spec_d_row(self@));
                }
            },
            SimplifiedPatternKind::Constructor { .. } => {
                proof {
                    assert(rows_view(out@) =~= spec_d_row(self@));
                }
            },
            SimplifiedPatternKind::Or(_) => {
                proof {
                    assert(false);
                }
            },
        }
        out
    }

    /// Appends copies of the row's patterns from column `from` on.
    fn push_tail(&self, row: &mut Vec<SimplifiedPattern>, from: usize)
        requires
            from <= old(row)@.len() + self.inner@.len(),
            from <= self.inner@.len(),
        ensures
            final(row)@.len() == old(row)@.len() + self.inner@.len() - from,
            forall|m: int|
                0 <= m < old(row)@.len() ==> #[trigger] final(row)@[m] == old(row)@[m],
            forall|m: int|
                old(row)@.len() <= m < final(row)@.len() ==> pat_view(#[trigger] final(row)@[m])
                    == self@[m - old(row)@.len() + from],
    {
        proof {
            crate::pattern::lemma_pats_view_len(self.inner@);
        }
        let mut i: usize = from;
        while i < self.inner.len()
            invariant
                from <= i <= self.inner@.len(),
                row@.len() == old(row)@.len() + i - from,
                forall|m: int|
                    0 <= m < old(row)@.len() ==> #[trigger] row@[m] == old(row)@[m],
                forall|m: int|
                    old(row)@.len() <= m < row@.len() ==> pat_view(#[trigger] row@[m]) == self@[m
                        - old(row)@.len() + from],
            decreases self.inner@.len() - i,
        {
            proof {
                crate::pattern::lemma_pats_view_len(self.inner@);
                crate::pattern::lemma_pats_view_index(self.inner@, i as int);
            }
            let c = self.inner[i].clone();
            row.push(c);
            i = i + 1;
        }
    }
}

/// The views of a sequence of rows.
pub open spec fn rows_view(rs: Seq<PatternRowVec>) -> Seq<Seq<SPat>> {
    Seq::new(rs.len(), |i: int| rs[i]@)
}

/// A vector of patterns whose first `n` views form one block and whose rest
/// views form another views as the blocks' concatenation.
proof fn lemma_pats_view_split(row: Seq<SimplifiedPattern>, n: int, expected: Seq<SPat>)
    requires
        0 <= n <= row.len(),
        expected.len() == row.len(),
        forall|m: int| 0 <= m < row.len() ==> pat_view(#[trigger] row[m]) == expected[m],
    ensures
        pats_view(row) =~= expected,
{
    crate::pattern::lemma_pats_view_len(row);
    assert forall|m: int| 0 <= m < row.len() implies pats_view(row)[m] == expected[m] by {
        crate::pattern::lemma_pats_view_index(row, m);
    }
}


/// Whether every pattern of every row from `i` on is typed by the column
/// types `tys`.
pub open spec fn cols_are(rows: Seq<Seq<SPat>>, tys: Seq<TypeId>, i: int) -> bool {
    forall|j: int, m: int|
        i <= j < rows.len() && 0 <= m < rows[j].len() && m < tys.len() ==> (#[trigger] rows[j][m]).ty
            == tys[m]
}

/// The column types a matrix's first row exhibits.
pub open spec fn matrix_cols(rows: Seq<Seq<SPat>>) -> Seq<TypeId> {
    if rows.len() == 0 {
        Seq::empty()
    } else {
        Seq::new(rows[0].len(), |m: int| rows[0][m].ty)
    }
}

/// Phi-specialization's rows are typed by the constructor's field types
/// followed by the remaining source columns.
pub proof fn lemma_phi_from_cols(
    cat: TypeCatalog,
    c: ConstructorKind,
    rows: Seq<Seq<SPat>>,
    k: int,
    tys: Seq<TypeId>,
    i: int,
)
    requires
        0 <= i <= rows.len(),
        k > 0,
        rows_ok(cat, rows, k),
        c.spec_holds_in(cat),
        tys.len() == k,
        cols_are(rows, tys, i),
    ensures
        cols_are(
            spec_phi_from(cat, c, rows, i),
            c.spec_field_types(cat) + tys.drop_first(),
            0,
        ),
    decreases rows.len() - i,
{
    let ftys = c.spec_field_types(cat);
    let newtys = ftys + tys.drop_first();
    if i < rows.len() {
        lemma_phi_from_cols(cat, c, rows, k, tys, i + 1);
        lemma_phi_row_props(cat, c, rows[i]);
        let head = spec_phi_row(cat, c, rows[i]);
        let tail = spec_phi_from(cat, c, rows, i + 1);
        assert(cols_are(head, newtys, 0)) by {
            lemma_phi_row_cols(cat, c, rows[i], tys);
        }
        assert forall|j: int, m: int|
            0 <= j < (head + tail).len() && 0 <= m < (head + tail)[j].len() && m
                < newtys.len() implies (#[trigger] (head + tail)[j][m]).ty == newtys[m] by {
            if j < head.len() {
                assert((head + tail)[j] == head[j]);
            } else {
                assert((head + tail)[j] == tail[j - head.len()]);
            }
        }
    }
}

/// The rows phi-specialization makes of one row are typed by the
/// constructor's field types followed by the source row's remaining column
/// types.
pub proof fn lemma_phi_row_cols(
    cat: TypeCatalog,
    c: ConstructorKind,
    row: Seq<SPat>,
    tys: Seq<TypeId>,
)
    requires
        row.len() > 0,
        or_free_seq(row),
        pats_typed(cat, row),
        c.spec_holds_in(cat),
        tys.len() == row.len(),
        forall|m: int| 0 <= m < row.len() ==> (#[trigger] row[m]).ty == tys[m],
    ensures
        cols_are(spec_phi_row(cat, c, row), c.spec_field_types(cat) + tys.drop_first(), 0),
{
    let ftys = c.spec_field_types(cat);
    let newtys = ftys + tys.drop_first();
    assert(or_free(row[0]) && or_free_seq(row.drop_first()));
    assert(pat_typed(cat, row[0]) && pats_typed(cat, row.drop_first()));
    match row[0].kind {
        SPatKind::Wild => {
            let wilds = wild_fields(ftys);
            let out = wilds + row.drop_first();
            lemma_wild_fields_props(cat, ftys);
            assert forall|j: int, m: int|
                0 <= j < spec_phi_row(cat, c, row).len() && 0 <= m < spec_phi_row(
                    cat,
                    c,
                    row,
                )[j].len() && m < newtys.len() implies (#[trigger] spec_phi_row(
                cat,
                c,
                row,
            )[j][m]).ty == newtys[m] by {
                assert(spec_phi_row(cat, c, row)[j] == out);
                if m < ftys.len() {
                    assert(out[m] == wilds[m]);
                } else {
                    assert(out[m] == row.drop_first()[m - ftys.len()]);
                    assert(row[m - ftys.len() + 1].ty == tys[m - ftys.len() + 1]);
                }
            }
        },
        SPatKind::Ctor { ctor, fields } => {
            if ctor == c {
                let out = fields + row.drop_first();
                assert forall|j: int, m: int|
                    0 <= j < spec_phi_row(cat, c, row).len() && 0 <= m < spec_phi_row(
                        cat,
                        c,
                        row,
                    )[j].len() && m < newtys.len() implies (#[trigger] spec_phi_row(
                    cat,
                    c,
                    row,
                )[j][m]).ty == newtys[m] by {
                    assert(spec_phi_row(cat, c, row)[j] == out);
                    if m < fields.len() {
                        assert(fields[m].ty == c.spec_field_types(cat)[m]);
                    } else {
                        assert(out[m] == row.drop_first()[m - fields.len()]);
                        assert(row[m - fields.len() + 1].ty == tys[m - fields.len() + 1]);
                    }
                }
            }
        },
        SPatKind::Or(_) => {
            assert(false);
        },
    }
}

/// Default-specialization's rows are typed by the source columns less the
/// first.
pub proof fn lemma_d_from_cols(
    cat: TypeCatalog,
    rows: Seq<Seq<SPat>>,
    k: int,
    tys: Seq<TypeId>,
    i: int,
)
    requires
        0 <= i <= rows.len(),
        k > 0,
        rows_ok(cat, rows, k),
        tys.len() == k,
        cols_are(rows, tys, i),
    ensures
        cols_are(spec_d_from(rows, i), tys.drop_first(), 0),
    decreases rows.len() - i,
{
    if i < rows.len() {
        lemma_d_from_cols(cat, rows, k, tys, i + 1);
        lemma_d_row_props(cat, rows[i]);
        let head = spec_d_row(rows[i]);
        let tail = spec_d_from(rows, i + 1);
        assert(cols_are(head, tys.drop_first(), 0)) by {
            if rows[i][0].kind is Wild {
                assert forall|j: int, m: int|
                    0 <= j < head.len() && 0 <= m < head[j].len() && m
                        < tys.drop_first().len() implies (#[trigger] head[j][m]).ty
                    == tys.drop_first()[m] by {
                    assert(head[j] == rows[i].drop_first());
                    assert(rows[i][m + 1].ty == tys[m + 1]);
                }
            }
            if rows[i][0].kind is Or {
                assert(or_free_seq(rows[i]));
                assert(or_free(rows[i][0]) && or_free_seq(rows[i].drop_first()));
                assert(false);
            }
        }
        assert forall|j: int, m: int|
            0 <= j < (head + tail).len() && 0 <= m < (head + tail)[j].len() && m
                < tys.drop_first().len() implies (#[trigger] (head + tail)[j][m]).ty
            == tys.drop_first()[m] by {
            if j < head.len() {
                assert((head + tail)[j] == head[j]);
            } else {
                assert((head + tail)[j] == tail[j - head.len()]);
            }
        }
    }
}

/// Whether the sigma set covers the scrutinee enum completely: it is
/// nonempty and holds as many constructors as the first one's enum has
/// variants.
pub open spec fn spec_is_complete(
    cat: TypeCatalog,
    sigma: Seq<ConstructorKind>,
) -> bool {
    sigma.len() > 0 && sigma.len() == cat.spec_variants(sigma[0].spec_ty()).len()
}

/// The variants of the enum `ty` absent from `sigma`, among the first `v`,
/// each as a constructor pattern with wildcard fields.
pub open spec fn spec_absent_prefix(
    cat: TypeCatalog,
    sigma: Seq<ConstructorKind>,
    ty: TypeId,
    v: int,
) -> Seq<SPat>
    decreases v,
{
    if v <= 0 {
        Seq::empty()
    } else {
        let prev = spec_absent_prefix(cat, sigma, ty, v - 1);
        let c = ConstructorKind::Variant(
            crate::types::EnumVariantId { ty, idx: (v - 1) as u32 },
        );
        if sigma.contains(c) {
            prev
        } else {
            prev.push(
                SPat {
                    kind: SPatKind::Ctor { ctor: c, fields: wild_fields(c.spec_field_types(cat)) },
                    ty,
                },
            )
        }
    }
}

/// The witness pattern for an incompletely covered column: a wildcard when
/// nothing was matched on, else the alternatives the arms left out.
pub open spec fn spec_missing(
    cat: TypeCatalog,
    sigma: Seq<ConstructorKind>,
    ty: TypeId,
) -> SPat {
    if sigma.len() == 0 {
        SPat { kind: SPatKind::Wild, ty }
    } else {
        SPat {
            kind: SPatKind::Or(
                spec_absent_prefix(cat, sigma, ty, cat.spec_variants(ty).len() as int),
            ),
            ty,
        }
    }
}


/// A block of rows that are or-free, typed, uniformly wide and typed by
/// one list of column types is a well-formed matrix.
pub proof fn lemma_matrix_ok_of(cat: TypeCatalog, rows: Seq<Seq<SPat>>, k: int, tys: Seq<TypeId>)
    requires
        rows_ok(cat, rows, k),
        cols_are(rows, tys, 0),
        tys.len() >= k,
    ensures
        matrix_ok(cat, rows),
{
    if rows.len() > 0 {
        assert(rows[0].len() == k);
        assert forall|j: int, m: int|
            0 <= j < rows.len() && 0 <= m < rows[j].len() && m < matrix_cols(rows).len() implies (
        #[trigger] rows[j][m]).ty == matrix_cols(rows)[m] by {
            assert(rows[j][m].ty == tys[m]);
            assert(rows[0][m].ty == tys[m]);
        }
    }
}

/// The constructor's fields for a witness: the inner witness's first
/// columns, with any missing positions filled by typed wildcards. An inner
/// matrix that lost all rows signals uncovered space with a witness
/// narrower than the constructor's arity; the usual presentation of the
/// algorithm leaves that case undefined, and this library completes it
/// with wildcards.
pub open spec fn spec_witness_fields(cat: TypeCatalog, c: ConstructorKind, w: Seq<SPat>) -> Seq<
    SPat,
> {
    let ftys = c.spec_field_types(cat);
    Seq::new(
        ftys.len(),
        |m: int|
            if m < w.len() {
                w[m]
            } else {
                SPat { kind: SPatKind::Wild, ty: ftys[m] }
            },
    )
}

/// What remains of the inner witness after the constructor's fields.
pub open spec fn spec_witness_rest(n: int, w: Seq<SPat>) -> Seq<SPat> {
    if w.len() >= n {
        w.skip(n)
    } else {
        Seq::empty()
    }
}

/// The non-exhaustiveness witness of a matrix, per the recursive
/// specialization algorithm: an empty matrix is uncovered (empty witness);
/// a zero-column matrix is covered; a complete sigma set tries each of its
/// constructors in first-appearance order; an incomplete one recurses on
/// the default-specialized matrix and prepends the missing-cover pattern.
pub open spec fn spec_find(cat: TypeCatalog, rows: Seq<Seq<SPat>>) -> Option<Seq<SPat>>
    decreases msize_from(rows, 0), total_len_from(rows, 0), 1int, 0int,
        when matrix_ok(cat, rows)
{
    if rows.len() == 0 {
        Some(Seq::empty())
    } else if rows[0].len() == 0 {
        None
    } else {
        let k = rows[0].len() as int;
        let sigma = spec_sigma(rows);
        if spec_is_complete(cat, sigma) {
            proof {
                lemma_sigma_grounded(rows, k, cat, rows.len() as int);
            }
            spec_find_loop(cat, rows, sigma, 0)
        } else {
            let d = spec_d_from(rows, 0);
            proof {
                lemma_d_from_props(cat, rows, k, 0);
                lemma_d_from_cols(cat, rows, k, matrix_cols(rows), 0);
                lemma_matrix_ok_of(cat, d, k - 1, matrix_cols(rows).drop_first());
                if !(exists|j: int| 0 <= j < rows.len() && (#[trigger] rows[j])[0].kind is Ctor) {
                    assert forall|j: int| 0 <= j < rows.len() implies (#[trigger] rows[j])[0].kind
                        is Wild by {
                        lemma_or_free_head(rows, k, cat, j);
                        assert(!(rows[j][0].kind is Or));
                        assert(!(rows[j][0].kind is Ctor));
                    }
                }
            }
            match spec_find(cat, d) {
                None => None,
                Some(w) => Some(seq![spec_missing(cat, sigma, rows[0][0].ty)] + w),
            }
        }
    }
}

/// One pass over the sigma set: the first constructor whose specialized
/// matrix is non-exhaustive yields the overall witness; when none is, the
/// matrix is covered.
pub open spec fn spec_find_loop(
    cat: TypeCatalog,
    rows: Seq<Seq<SPat>>,
    sigma: Seq<ConstructorKind>,
    j: int,
) -> Option<Seq<SPat>>
    decreases msize_from(rows, 0), total_len_from(rows, 0), 0int, sigma.len() - j,
        when (matrix_ok(cat, rows) && rows.len() > 0 && rows[0].len() > 0 && sigma_grounded(
        rows,
        sigma,
    ))
{
    if j < 0 || j >= sigma.len() {
        None
    } else {
        let c = sigma[j];
        let phi = spec_phi_from(cat, c, rows, 0);
        proof {
            let k = rows[0].len() as int;
            lemma_sigma_member_typed(rows, k, cat, sigma, j);
            lemma_phi_from_props(cat, c, rows, k, 0);
            lemma_phi_from_cols(cat, c, rows, k, matrix_cols(rows), 0);
            lemma_matrix_ok_of(
                cat,
                phi,
                c.spec_field_types(cat).len() + k - 1,
                c.spec_field_types(cat) + matrix_cols(rows).drop_first(),
            );
            assert(ctor_heads_some_row(rows, c));
        }
        match spec_find(cat, phi) {
            None => spec_find_loop(cat, rows, sigma, j + 1),
            Some(w) => {
                let n = c.spec_field_types(cat).len() as int;
                Some(
                    seq![
                        SPat {
                            kind: SPatKind::Ctor { ctor: c, fields: spec_witness_fields(cat, c, w) },
                            ty: rows[0][0].ty,
                        },
                    ] + spec_witness_rest(n, w),
                )
            },
        }
    }
}

/// The view of an optional witness row.
pub open spec fn opt_rows_view(r: Option<Vec<SimplifiedPattern>>) -> Option<Seq<SPat>> {
    match r {
        Some(v) => Some(pats_view(v@)),
        None => None,
    }
}

/// Whether `v` holds `c`.
fn contains_ctor(v: &Vec<ConstructorKind>, c: ConstructorKind) -> (r: bool)
    ensures
        r == v@.contains(c),
{
    let mut i: usize = 0;
    let mut hit: bool = false;
    while i < v.len()
        invariant
            0 <= i <= v@.len(),
            hit <==> exists|k: int| 0 <= k < i && v@[k] == c,
        decreases v@.len() - i,
    {
        if v[i] == c {
            hit = true;
        }
        i = i + 1;
    }
    hit
}

impl PatternMatrix {
    /// How many rows the matrix has.
    pub fn nrows(&self) -> (r: usize)
        ensures
            r == self@.len(),
    {
        self.rows.len()
    }

    /// How many columns each row has; rows are uniform.
    pub fn ncols(&self) -> (r: usize)
        requires
            self@.len() > 0,
        ensures
            r == self@[0].len(),
    {
        self.rows[0].size()
    }

    /// The type of the first column.
    pub fn first_column_ty(&self) -> (r: TypeId)
        requires
            self@.len() > 0,
            self@[0].len() > 0,
        ensures
            r == self@[0][0].ty,
    {
        self.rows[0].first_column_ty()
    }

    /// The sigma set: the distinct constructors heading the matrix's rows,
    /// in first-appearance order. An insertion-ordered set of constructor
    /// codes does the deduplication.
    pub fn sigma_set(&self) -> (r: Vec<ConstructorKind>)
        requires
            forall|j: int| 0 <= j < self@.len() ==> (#[trigger] self@[j]).len() > 0,
        ensures
            r@ == spec_sigma(self@),
    {
        let mut seen = ctor_set_new();
        let mut sigma: Vec<ConstructorKind> = Vec::new();
        let ghost enc_fn = |x: ConstructorKind| spec_enc(x);
        let row_count = self.rows.len();
        let mut i: usize = 0;
        while i < row_count
            invariant
                row_count == self.rows@.len(),
                forall|j: int| 0 <= j < self@.len() ==> (#[trigger] self@[j]).len() > 0,
                0 <= i <= row_count,
                sigma@ == spec_sigma_prefix(self@, i as int),
                index_set_elems(seen) == sigma@.map_values(|x: ConstructorKind| spec_enc(x)),
            decreases row_count - i,
        {
            proof {
                assert(self@[i as int] == self.rows@[i as int]@);
            }
            let cs = self.rows[i].collect_first_elem_ctors();
            let ghost prev_sigma = sigma@;
            let mut j: usize = 0;
            while j < cs.len()
                invariant
                    0 <= j <= cs@.len(),
                    sigma@ == spec_insert_ctors_prefix(prev_sigma, cs@, j as int),
                    index_set_elems(seen) == sigma@.map_values(|x: ConstructorKind| spec_enc(x)),
                decreases cs@.len() - j,
            {
                let c = cs[j];
                let code = encode_ctor(c);
                proof {
                    lemma_coded_contains(sigma@, c);
                }
                let added = ctor_set_insert(&mut seen, code);
                if added {
                    let ghost before = sigma@;
                    sigma.push(c);
                    proof {
                        assert(sigma@.map_values(|x: ConstructorKind| spec_enc(x)) =~= before
                            .map_values(|x: ConstructorKind| spec_enc(x)).push(spec_enc(c)));
                    }
                }
                j = j + 1;
            }
            i = i + 1;
        }
        sigma
    }

    /// Whether the sigma set covers the scrutinee enum completely.
    pub fn is_complete(&self, cat: &TypeCatalog) -> (r: bool)
        requires
            matrix_ok(*cat, self@),
            self@.len() > 0 ==> self@[0].len() > 0,
        ensures
            r == spec_is_complete(*cat, spec_sigma(self@)),
    {
        let sigma = self.sigma_set();
        if sigma.len() == 0 {
            false
        } else {
            let c = sigma[0];
            proof {
                let k = self@[0].len() as int;
                lemma_sigma_grounded(self@, k, *cat, self@.len() as int);
                lemma_sigma_member_typed(self@, k, *cat, sigma@, 0);
            }
            let expected = ctor_variant_num(cat, c.ty());
            sigma.len() == expected
        }
    }

    /// Phi-specialization of the whole matrix for `ctor`.
    pub fn phi_specialize(&self, cat: &TypeCatalog, ctor: ConstructorKind) -> (r: PatternMatrix)
        requires
            matrix_ok(*cat, self@),
            self@.len() > 0 ==> self@[0].len() > 0,
            ctor.spec_holds_in(*cat),
        ensures
            r@ == spec_phi_from(*cat, ctor, self@, 0),
    {
        PatternMatrix { rows: self.phi_rows_from(cat, ctor, 0) }
    }

    fn phi_rows_from(&self, cat: &TypeCatalog, ctor: ConstructorKind, i: usize) -> (r: Vec<
        PatternRowVec,
    >)
        requires
            matrix_ok(*cat, self@),
            self@.len() > 0 ==> self@[0].len() > 0,
            ctor.spec_holds_in(*cat),
            i <= self.rows@.len(),
        ensures
            rows_view(r@) == spec_phi_from(*cat, ctor, self@, i as int),
        decreases self.rows@.len() - i,
    {
        if i == self.rows.len() {
            let r: Vec<PatternRowVec> = Vec::new();
            proof {
                assert(rows_view(r@) =~= spec_phi_from(*cat, ctor, self@, i as int));
            }
            r
        } else {
            proof {
                assert(or_free_seq(self@[i as int]) && self@[i as int].len() > 0);
            }
            let mut head = self.rows[i].phi_specialize(cat, ctor);
            let ghost head_rows = rows_view(head@);
            let mut tail = self.phi_rows_from(cat, ctor, i + 1);
            let ghost tail_rows = rows_view(tail@);
            head.append(&mut tail);
            proof {
                assert(rows_view(head@) =~= head_rows + tail_rows);
                assert(rows_view(head@) =~= spec_phi_from(*cat, ctor, self@, i as int));
            }
            head
        }
    }

    /// Default-specialization of the whole matrix.
    pub fn d_specialize(&self) -> (r: PatternMatrix)
        requires
            matrix_ok_plain(self@),
            self@.len() > 0 ==> self@[0].len() > 0,
        ensures
            r@ == spec_d_from(self@, 0),
    {
        PatternMatrix { rows: self.d_rows_from(0) }
    }

    fn d_rows_from(&self, i: usize) -> (r: Vec<PatternRowVec>)
        requires
            matrix_ok_plain(self@),
            self@.len() > 0 ==> self@[0].len() > 0,
            i <= self.rows@.len(),
        ensures
            rows_view(r@) == spec_d_from(self@, i as int),
        decreases self.rows@.len() - i,
    {
        if i == self.rows.len() {
            let r: Vec<PatternRowVec> = Vec::new();
            proof {
                assert(rows_view(r@) =~= spec_d_from(self@, i as int));
            }
            r
        } else {
            proof {
                assert(or_free_seq(self@[i as int]) && self@[i as int].len() > 0);
            }
            let mut head = self.rows[i].d_specialize();
            let ghost head_rows = rows_view(head@);
            let mut tail = self.d_rows_from(i + 1);
            let ghost tail_rows = rows_view(tail@);
            head.append(&mut tail);
            proof {
                assert(rows_view(head@) =~= head_rows + tail_rows);
                assert(rows_view(head@) =~= spec_d_from(self@, i as int));
            }
            head
        }
    }
}

/// Uniform width and or-freedom alone, without the catalog: what
/// default-specialization needs.
pub open spec fn matrix_ok_plain(rows: Seq<Seq<SPat>>) -> bool {
    forall|j: int|
        0 <= j < rows.len() ==> or_free_seq(#[trigger] rows[j]) && rows[j].len() == (if rows.len()
            > 0 {
            rows[0].len()
        } else {
            0
        })
}

/// How many variants the enum `ty` declares.
pub fn ctor_variant_num(cat: &TypeCatalog, ty: TypeId) -> (r: usize)
    requires
        cat.holds(ty),
        cat.spec_is_enum(ty),
    ensures
        r == cat.spec_variants(ty).len(),
{
    cat.variant_count(ty)
}

/// Every variant of the enum `ty`, as a constructor, in declaration order.
pub fn all_ctors(cat: &TypeCatalog, ty: TypeId) -> (r: Vec<ConstructorKind>)
    requires
        cat.holds(ty),
        cat.spec_is_enum(ty),
        cat.spec_variants(ty).len() < 0x1_0000_0000,
    ensures
        r@.len() == cat.spec_variants(ty).len(),
        forall|v: int|
            0 <= v < r@.len() ==> #[trigger] r@[v] == ConstructorKind::Variant(
                crate::types::EnumVariantId { ty, idx: v as u32 },
            ),
{
    let count = cat.variant_count(ty);
    let mut out: Vec<ConstructorKind> = Vec::new();
    let mut v: usize = 0;
    while v < count
        invariant
            count == cat.spec_variants(ty).len(),
            count < 0x1_0000_0000,
            0 <= v <= count,
            out@.len() == v,
            forall|x: int|
                0 <= x < v ==> #[trigger] out@[x] == ConstructorKind::Variant(
                    crate::types::EnumVariantId { ty, idx: x as u32 },
                ),
        decreases count - v,
    {
        out.push(
            ConstructorKind::Variant(crate::types::EnumVariantId { ty, idx: v as u32 }),
        );
        v = v + 1;
    }
    out
}


impl PatternMatrix {
    /// The witness pattern for an incompletely covered first column.
    fn build_missing(
        &self,
        cat: &TypeCatalog,
        sigma: &Vec<ConstructorKind>,
        ty: TypeId,
    ) -> (r: SimplifiedPattern)
        requires
            sigma@.len() > 0 ==> cat.holds(ty) && cat.spec_is_enum(ty) && cat.spec_variants(
                ty,
            ).len() < 0x1_0000_0000,
        ensures
            r@ == spec_missing(*cat, sigma@, ty),
    {
        if sigma.len() == 0 {
            SimplifiedPattern::wild_card(ty)
        } else {
            let count = ctor_variant_num(cat, ty);
            let mut alts: Vec<SimplifiedPattern> = Vec::new();
            let mut v: usize = 0;
            while v < count
                invariant
                    count == cat.spec_variants(ty).len(),
                    count < 0x1_0000_0000,
                    cat.holds(ty) && cat.spec_is_enum(ty),
                    0 <= v <= count,
                    pats_view(alts@) =~= spec_absent_prefix(*cat, sigma@, ty, v as int),
                decreases count - v,
            {
                let c = ConstructorKind::Variant(
                    crate::types::EnumVariantId { ty, idx: v as u32 },
                );
                if !contains_ctor(sigma, c) {
                    let kind = SimplifiedPatternKind::ctor_with_wild_card_fields(cat, c);
                    let pat = SimplifiedPattern::new(kind, ty);
                    let ghost before_seq = alts@;
                    let ghost before = pats_view(alts@);
                    alts.push(pat);
                    proof {
                        assert(c.spec_ty() == ty);
                        assert(pat@ == (SPat {
                            kind: SPatKind::Ctor {
                                ctor: c,
                                fields: wild_fields(c.spec_field_types(*cat)),
                            },
                            ty,
                        }));
                        crate::pattern::lemma_pats_view_len(alts@);
                        crate::pattern::lemma_pats_view_len(before_seq);
                        assert forall|m: int| 0 <= m < alts@.len() implies pats_view(alts@)[m]
                            == spec_absent_prefix(*cat, sigma@, ty, v as int + 1)[m] by {
                            crate::pattern::lemma_pats_view_index(alts@, m);
                            if m < before_seq.len() {
                                crate::pattern::lemma_pats_view_index(before_seq, m);
                                assert(alts@[m] == before_seq[m]);
                            } else {
                                assert(alts@[m] == pat);
                            }
                        }
                        assert(pats_view(alts@) =~= spec_absent_prefix(
                            *cat,
                            sigma@,
                            ty,
                            v as int + 1,
                        ));
                    }
                }
                v = v + 1;
            }
            let r = SimplifiedPattern::new(SimplifiedPatternKind::Or(alts), ty);
            proof {
                assert(r@.kind->Or_0 =~= spec_missing(*cat, sigma@, ty).kind->Or_0);
                assert(r@ =~~= spec_missing(*cat, sigma@, ty));
            }
            r
        }
    }

    /// The core recursion over an or-free matrix; see [`spec_find`].
    fn find_inner(&self, cat: &TypeCatalog) -> (r: Option<Vec<SimplifiedPattern>>)
        requires
            cat.wf(),
            matrix_ok(*cat, self@),
        ensures
            opt_rows_view(r) == spec_find(*cat, self@),
        decreases msize_from(self@, 0), total_len_from(self@, 0), 1int, 0int,
    {
        if self.rows.len() == 0 {
            let w: Vec<SimplifiedPattern> = Vec::new();
            proof {
                assert(pats_view(w@) =~= Seq::<SPat>::empty());
            }
            return Some(w);
        }
        if self.ncols() == 0 {
            return None;
        }
        let ghost k = self@[0].len() as int;
        let sigma = self.sigma_set();
        proof {
            lemma_sigma_grounded(self@, k, *cat, self@.len() as int);
        }
        if self.is_complete(cat) {
            self.find_sigma_loop(cat, &sigma, 0)
        } else {
            proof {
                lemma_d_from_props(*cat, self@, k, 0);
                lemma_d_from_cols(*cat, self@, k, matrix_cols(self@), 0);
                lemma_matrix_ok_of(
                    *cat,
                    spec_d_from(self@, 0),
                    k - 1,
                    matrix_cols(self@).drop_first(),
                );
                if !(exists|j: int|
                    0 <= j < self@.len() && (#[trigger] self@[j])[0].kind is Ctor) {
                    assert forall|j: int| 0 <= j < self@.len() implies (
                    #[trigger] self@[j])[0].kind is Wild by {
                        lemma_or_free_head(self@, k, *cat, j);
                        assert(!(self@[j][0].kind is Or));
                        assert(!(self@[j][0].kind is Ctor));
                    }
                }
            }
            let d = self.d_specialize();
            match d.find_inner(cat) {
                None => None,
                Some(w) => {
                    let ty = self.first_column_ty();
                    proof {
                        if sigma@.len() > 0 {
                            lemma_sigma_member_typed(self@, k, *cat, sigma@, 0);
                            assert(cat.spec_is_enum(sigma@[0].spec_ty()));
                            assert(sigma@[0].spec_ty() == ty);
                            let ConstructorKind::Variant(v0) = sigma@[0];
                            assert(cat.spec_variants(ty).len() < 0x1_0000_0000);
                        }
                    }
                    let missing = self.build_missing(cat, &sigma, ty);
                    let mut res: Vec<SimplifiedPattern> = Vec::new();
                    res.push(missing);
                    let mut tail = w;
                    let ghost tail_seq = tail@;
                    let ghost tail_view = pats_view(tail@);
                    res.append(&mut tail);
                    proof {
                        crate::pattern::lemma_pats_view_len(res@);
                        crate::pattern::lemma_pats_view_len(tail_seq);
                        assert forall|m: int| 0 <= m < res@.len() implies pats_view(res@)[m] == (
                        seq![spec_missing(*cat, sigma@, ty)] + tail_view)[m] by {
                            crate::pattern::lemma_pats_view_index(res@, m);
                            if m > 0 {
                                crate::pattern::lemma_pats_view_index(tail_seq, m - 1);
                                assert(res@[m] == tail_seq[m - 1]);
                            }
                        }
                        assert(pats_view(res@) =~= seq![spec_missing(*cat, sigma@, ty)]
                            + tail_view);
                    }
                    Some(res)
                },
            }
        }
    }

    /// The pass over the sigma set; see [`spec_find_loop`].
    fn find_sigma_loop(
        &self,
        cat: &TypeCatalog,
        sigma: &Vec<ConstructorKind>,
        j: usize,
    ) -> (r: Option<Vec<SimplifiedPattern>>)
        requires
            cat.wf(),
            matrix_ok(*cat, self@),
            self@.len() > 0,
            self@[0].len() > 0,
            sigma_grounded(self@, sigma@),
            j <= sigma@.len(),
        ensures
            opt_rows_view(r) == spec_find_loop(*cat, self@, sigma@, j as int),
        decreases msize_from(self@, 0), total_len_from(self@, 0), 0int, sigma@.len() - j,
    {
        if j == sigma.len() {
            return None;
        }
        let c = sigma[j];
        let ghost k = self@[0].len() as int;
        proof {
            lemma_sigma_member_typed(self@, k, *cat, sigma@, j as int);
            lemma_phi_from_props(*cat, c, self@, k, 0);
            lemma_phi_from_cols(*cat, c, self@, k, matrix_cols(self@), 0);
            lemma_matrix_ok_of(
                *cat,
                spec_phi_from(*cat, c, self@, 0),
                c.spec_field_types(*cat).len() + k - 1,
                c.spec_field_types(*cat) + matrix_cols(self@).drop_first(),
            );
            assert(ctor_heads_some_row(self@, c));
        }
        let phi = self.phi_specialize(cat, c);
        match phi.find_inner(cat) {
            None => self.find_sigma_loop(cat, sigma, j + 1),
            Some(w) => {
                let n = c.field_len(cat);
                let ty = self.first_column_ty();
                let ghost w_seq = w@;
                let ghost w_view = pats_view(w@);
                let mut fields = w;
                let mut rest: Vec<SimplifiedPattern>;
                proof {
                    crate::pattern::lemma_pats_view_len(w_seq);
                    assert forall|x: int| 0 <= x < w_view.len() implies pat_view(
                        #[trigger] fields@[x],
                    ) == w_view[x] by {
                        crate::pattern::lemma_pats_view_index(w_seq, x);
                    }
                }
                if fields.len() >= n {
                    rest = fields.split_off(n);
                } else {
                    let tys = c.field_types(cat);
                    let mut m: usize = fields.len();
                    while m < tys.len()
                        invariant
                            w_view.len() <= m <= tys@.len(),
                            fields@.len() == m,
                            forall|x: int|
                                0 <= x < w_view.len() ==> pat_view(#[trigger] fields@[x])
                                    == w_view[x],
                            forall|x: int|
                                w_view.len() <= x < m ==> pat_view(#[trigger] fields@[x]) == (SPat {
                                    kind: SPatKind::Wild,
                                    ty: tys@[x],
                                }),
                        decreases tys@.len() - m,
                    {
                        fields.push(SimplifiedPattern::wild_card(tys[m]));
                        m = m + 1;
                    }
                    rest = Vec::new();
                }
                let ghost fields_view = pats_view(fields@);
                let ghost rest_view = pats_view(rest@);
                proof {
                    crate::pattern::lemma_pats_view_len(fields@);
                    crate::pattern::lemma_pats_view_len(rest@);
                    crate::pattern::lemma_pats_view_len(w@);
                    assert forall|m: int| 0 <= m < fields_view.len() implies fields_view[m]
                        == spec_witness_fields(*cat, c, w_view)[m] by {
                        crate::pattern::lemma_pats_view_index(fields@, m);
                        if m < w_view.len() {
                            crate::pattern::lemma_pats_view_index(w@, m);
                        }
                    }
                    assert(fields_view =~= spec_witness_fields(*cat, c, w_view));
                    assert forall|m: int| 0 <= m < rest_view.len() implies rest_view[m]
                        == spec_witness_rest(n as int, w_view)[m] by {
                        crate::pattern::lemma_pats_view_index(rest@, m);
                        if w_view.len() >= n {
                            crate::pattern::lemma_pats_view_index(w_seq, m + n);
                        }
                    }
                    assert(rest_view =~= spec_witness_rest(n as int, w_view));
                }
                let pat = SimplifiedPattern::new(
                    SimplifiedPatternKind::Constructor { kind: c, fields },
                    ty,
                );
                let ghost pat_v = pat@;
                let mut res: Vec<SimplifiedPattern> = Vec::new();
                res.push(pat);
                res.append(&mut rest);
                proof {
                    assert(pat_v.kind->Ctor_fields =~= fields_view);
                    crate::pattern::lemma_pats_view_len(res@);
                    assert forall|m: int| 0 <= m < res@.len() implies pats_view(res@)[m] == (seq![
                        SPat {
                            kind: SPatKind::Ctor {
                                ctor: c,
                                fields: spec_witness_fields(*cat, c, w_view),
                            },
                            ty,
                        },
                    ] + spec_witness_rest(n as int, w_view))[m] by {
                        crate::pattern::lemma_pats_view_index(res@, m);
                        if m == 0 {
                            assert(pat_v =~~= (SPat {
                                kind: SPatKind::Ctor {
                                    ctor: c,
                                    fields: spec_witness_fields(*cat, c, w_view),
                                },
                                ty,
                            }));
                        }
                    }
                    assert(pats_view(res@) =~= seq![
                        SPat {
                            kind: SPatKind::Ctor {
                                ctor: c,
                                fields: spec_witness_fields(*cat, c, w_view),
                            },
                            ty,
                        },
                    ] + spec_witness_rest(n as int, w_view));
                }
                Some(res)
            },
        }
    }
}



/// The or-free alternatives one pattern stands for: a wildcard is itself; a
/// constructor pattern is one alternative per combination of its fields'
/// alternatives; an or-pattern is all its alternatives' alternatives.
pub open spec fn spec_expand_pat(v: SPat) -> Seq<SPat>
    decreases fsize(v), 0int,
{
    match v.kind {
        SPatKind::Wild => seq![v],
        SPatKind::Ctor { ctor, fields } => {
            proof {
                assert(fsize(v) == 1 + fsize_seq(fields));
            }
            spec_expand_row(fields).map_values(
                |fs: Seq<SPat>| SPat { kind: SPatKind::Ctor { ctor, fields: fs }, ty: v.ty },
            )
        },
        SPatKind::Or(ps) => {
            proof {
                assert(fsize(v) == 1 + fsize_seq(ps));
            }
            spec_expand_or(ps)
        },
    }
}

/// The alternatives of a row: the cartesian combinations of its patterns'
/// alternatives, first pattern varying slowest.
pub open spec fn spec_expand_row(row: Seq<SPat>) -> Seq<Seq<SPat>>
    decreases fsize_seq(row), 1int,
{
    if row.len() == 0 {
        seq![Seq::<SPat>::empty()]
    } else {
        proof {
            assert(fsize_seq(row) == fsize(row[0]) + fsize_seq(row.drop_first()));
            lemma_fsize_pos(row[0]);
        }
        spec_cross(spec_expand_pat(row[0]), spec_expand_row(row.drop_first()))
    }
}

/// The alternatives of a block of or-pattern alternatives.
pub open spec fn spec_expand_or(ps: Seq<SPat>) -> Seq<SPat>
    decreases fsize_seq(ps), 1int,
{
    if ps.len() == 0 {
        Seq::empty()
    } else {
        proof {
            assert(fsize_seq(ps) == fsize(ps[0]) + fsize_seq(ps.drop_first()));
            lemma_fsize_pos(ps[0]);
        }
        spec_expand_pat(ps[0]) + spec_expand_or(ps.drop_first())
    }
}

/// Every pattern has at least one node.
pub proof fn lemma_fsize_pos(v: SPat)
    ensures
        fsize(v) >= 1,
{
    match v.kind {
        SPatKind::Wild => {},
        SPatKind::Ctor { ctor, fields } => {},
        SPatKind::Or(_) => {},
    }
}

/// Each head paired with each tail, heads varying slowest.
pub open spec fn spec_cross(heads: Seq<SPat>, tails: Seq<Seq<SPat>>) -> Seq<Seq<SPat>>
    decreases heads.len(),
{
    if heads.len() == 0 {
        Seq::empty()
    } else {
        tails.map_values(|t: Seq<SPat>| seq![heads[0]] + t) + spec_cross(
            heads.drop_first(),
            tails,
        )
    }
}

/// The expansions of the rows from `i` on, in row order.
pub open spec fn spec_expand_from(rows: Seq<Seq<SPat>>, i: int) -> Seq<Seq<SPat>>
    decreases rows.len() - i,
{
    if i < 0 || i >= rows.len() {
        Seq::empty()
    } else {
        spec_expand_row(rows[i]) + spec_expand_from(rows, i + 1)
    }
}


/// What each alternative of a well typed pattern satisfies.
pub open spec fn pat_alt_ok(cat: TypeCatalog, v: SPat, out: SPat) -> bool {
    or_free(out) && pat_typed(cat, out) && out.ty == v.ty
}

/// What each alternative row of a well typed row satisfies.
pub open spec fn row_alt_ok(cat: TypeCatalog, row: Seq<SPat>, out: Seq<SPat>) -> bool {
    &&& out.len() == row.len()
    &&& or_free_seq(out)
    &&& pats_typed(cat, out)
    &&& forall|m: int| 0 <= m < out.len() ==> (#[trigger] out[m]).ty == row[m].ty
}

/// Every alternative of a well typed pattern is or-free, well typed and of
/// the pattern's own type.
pub proof fn lemma_expand_pat_props(cat: TypeCatalog, v: SPat)
    requires
        pat_typed(cat, v),
    ensures
        forall|x: int|
            0 <= x < spec_expand_pat(v).len() ==> pat_alt_ok(
                cat,
                v,
                #[trigger] spec_expand_pat(v)[x],
            ),
    decreases fsize(v), 0int,
{
    match v.kind {
        SPatKind::Wild => {
            assert forall|x: int| 0 <= x < spec_expand_pat(v).len() implies pat_alt_ok(
                cat,
                v,
                #[trigger] spec_expand_pat(v)[x],
            ) by {
                assert(spec_expand_pat(v)[x] == v);
            }
        },
        SPatKind::Ctor { ctor, fields } => {
            assert(fsize(v) == 1 + fsize_seq(fields));
            lemma_pats_typed_index(cat, fields);
            lemma_expand_row_props(cat, fields);
            let rows = spec_expand_row(fields);
            assert forall|x: int| 0 <= x < spec_expand_pat(v).len() implies pat_alt_ok(
                cat,
                v,
                #[trigger] spec_expand_pat(v)[x],
            ) by {
                assert(spec_expand_pat(v)[x] == (SPat {
                    kind: SPatKind::Ctor { ctor, fields: rows[x] },
                    ty: v.ty,
                }));
                assert(row_alt_ok(cat, fields, rows[x]));
                lemma_or_free_seq_index(rows[x]);
                lemma_pats_typed_index(cat, rows[x]);
            }
        },
        SPatKind::Or(ps) => {
            assert(fsize(v) == 1 + fsize_seq(ps));
            lemma_pats_typed_index(cat, ps);
            lemma_expand_or_props(cat, ps, v.ty);
            assert forall|x: int| 0 <= x < spec_expand_pat(v).len() implies pat_alt_ok(
                cat,
                v,
                #[trigger] spec_expand_pat(v)[x],
            ) by {
                assert(spec_expand_pat(v)[x] == spec_expand_or(ps)[x]);
                assert(pat_alt_ok(
                    cat,
                    SPat { kind: SPatKind::Wild, ty: v.ty },
                    spec_expand_or(ps)[x],
                ));
            }
        },
    }
}

/// Every alternative of a block of well typed alternatives of type `ty` is
/// or-free, well typed and of type `ty`.
pub proof fn lemma_expand_or_props(cat: TypeCatalog, ps: Seq<SPat>, ty: TypeId)
    requires
        pats_typed(cat, ps),
        forall|m: int| 0 <= m < ps.len() ==> (#[trigger] ps[m]).ty == ty,
    ensures
        forall|x: int|
            0 <= x < spec_expand_or(ps).len() ==> pat_alt_ok(
                cat,
                SPat { kind: SPatKind::Wild, ty },
                #[trigger] spec_expand_or(ps)[x],
            ),
    decreases fsize_seq(ps), 1int,
{
    if ps.len() > 0 {
        assert(fsize_seq(ps) == fsize(ps[0]) + fsize_seq(ps.drop_first()));
        lemma_fsize_pos(ps[0]);
        assert(pat_typed(cat, ps[0]) && pats_typed(cat, ps.drop_first()));
        lemma_expand_pat_props(cat, ps[0]);
        assert forall|m: int| 0 <= m < ps.drop_first().len() implies (
        #[trigger] ps.drop_first()[m]).ty == ty by {
            assert(ps.drop_first()[m] == ps[m + 1]);
        }
        lemma_expand_or_props(cat, ps.drop_first(), ty);
        let head = spec_expand_pat(ps[0]);
        let tail = spec_expand_or(ps.drop_first());
        assert forall|x: int| 0 <= x < spec_expand_or(ps).len() implies pat_alt_ok(
            cat,
            SPat { kind: SPatKind::Wild, ty },
            #[trigger] spec_expand_or(ps)[x],
        ) by {
            if x < head.len() {
                assert(spec_expand_or(ps)[x] == head[x]);
                assert(pat_alt_ok(cat, ps[0], head[x]));
            } else {
                assert(spec_expand_or(ps)[x] == tail[x - head.len()]);
            }
        }
    }
}

/// Every alternative row of a well typed row is as wide, or-free, well
/// typed and column-typed like the row.
pub proof fn lemma_expand_row_props(cat: TypeCatalog, row: Seq<SPat>)
    requires
        pats_typed(cat, row),
    ensures
        forall|x: int|
            0 <= x < spec_expand_row(row).len() ==> row_alt_ok(
                cat,
                row,
                #[trigger] spec_expand_row(row)[x],
            ),
    decreases fsize_seq(row), 1int,
{
    if row.len() == 0 {
        assert forall|x: int| 0 <= x < spec_expand_row(row).len() implies row_alt_ok(
            cat,
            row,
            #[trigger] spec_expand_row(row)[x],
        ) by {
            assert(spec_expand_row(row)[x] =~= Seq::<SPat>::empty());
        }
    } else {
        assert(fsize_seq(row) == fsize(row[0]) + fsize_seq(row.drop_first()));
        lemma_fsize_pos(row[0]);
        assert(pat_typed(cat, row[0]) && pats_typed(cat, row.drop_first()));
        lemma_expand_pat_props(cat, row[0]);
        lemma_expand_row_props(cat, row.drop_first());
        lemma_cross_props(
            cat,
            row,
            spec_expand_pat(row[0]),
            spec_expand_row(row.drop_first()),
        );
    }
}

/// Crossing good heads with good tails yields good rows.
proof fn lemma_cross_props(cat: TypeCatalog, row: Seq<SPat>, heads: Seq<SPat>, tails: Seq<
    Seq<SPat>,
>)
    requires
        row.len() > 0,
        forall|x: int| 0 <= x < heads.len() ==> pat_alt_ok(cat, row[0], #[trigger] heads[x]),
        forall|x: int|
            0 <= x < tails.len() ==> row_alt_ok(cat, row.drop_first(), #[trigger] tails[x]),
    ensures
        forall|x: int|
            0 <= x < spec_cross(heads, tails).len() ==> row_alt_ok(
                cat,
                row,
                #[trigger] spec_cross(heads, tails)[x],
            ),
    decreases heads.len(),
{
    if heads.len() > 0 {
        lemma_cross_props(cat, row, heads.drop_first(), tails);
        let block = tails.map_values(|t: Seq<SPat>| seq![heads[0]] + t);
        assert forall|x: int| 0 <= x < spec_cross(heads, tails).len() implies row_alt_ok(
            cat,
            row,
            #[trigger] spec_cross(heads, tails)[x],
        ) by {
            if x < block.len() {
                assert(spec_cross(heads, tails)[x] == block[x]);
                let out = seq![heads[0]] + tails[x];
                assert(block[x] == out);
                assert(row_alt_ok(cat, row.drop_first(), tails[x]));
                assert(or_free_seq(out)) by {
                    lemma_or_free_seq_index(out);
                    lemma_or_free_seq_index(tails[x]);
                    assert forall|m: int| 0 <= m < out.len() implies or_free(
                        #[trigger] out[m],
                    ) by {
                        if m > 0 {
                            assert(out[m] == tails[x][m - 1]);
                        }
                    }
                }
                assert(pats_typed(cat, out)) by {
                    lemma_pats_typed_index(cat, out);
                    lemma_pats_typed_index(cat, tails[x]);
                    assert forall|m: int| 0 <= m < out.len() implies pat_typed(
                        cat,
                        #[trigger] out[m],
                    ) by {
                        if m > 0 {
                            assert(out[m] == tails[x][m - 1]);
                        }
                    }
                }
                assert forall|m: int| 0 <= m < out.len() implies (#[trigger] out[m]).ty
                    == row[m].ty by {
                    if m > 0 {
                        assert(out[m] == tails[x][m - 1]);
                        assert(tails[x][m - 1].ty == row.drop_first()[m - 1].ty);
                        assert(row.drop_first()[m - 1] == row[m]);
                    }
                }
            } else {
                assert(spec_cross(heads, tails)[x] == spec_cross(heads.drop_first(), tails)[x
                    - block.len()]);
            }
        }
    }
}


/// The or-free alternatives the pattern stands for.
fn expand_pattern(p: &SimplifiedPattern) -> (r: Vec<SimplifiedPattern>)
    ensures
        pats_view(r@) == spec_expand_pat(p@),
    decreases fsize(p@), 0int, 0int,
{
    match &p.kind {
        SimplifiedPatternKind::WildCard => {
            let mut out: Vec<SimplifiedPattern> = Vec::new();
            let c = p.clone();
            out.push(c);
            proof {
                crate::pattern::lemma_pats_view_len(out@);
                crate::pattern::lemma_pats_view_index(out@, 0);
                assert(pats_view(out@) =~= spec_expand_pat(p@));
            }
            out
        },
        SimplifiedPatternKind::Constructor { kind, fields } => {
            proof {
                assert(p@.kind->Ctor_fields =~= pats_view(fields@));
                assert(fsize(p@) == 1 + fsize_seq(pats_view(fields@)));
                assert(pats_view(fields@).skip(0) =~= pats_view(fields@));
            }
            let rows = expand_row_parts(fields, 0);
            let ghost frows = spec_expand_row(pats_view(fields@));
            proof {
                assert(pats_view(fields@).skip(0) =~= pats_view(fields@));
            }
            let mut out: Vec<SimplifiedPattern> = Vec::new();
            let mut x: usize = 0;
            while x < rows.len()
                invariant
                    rows_view(rows@) == frows,
                    p@.kind matches SPatKind::Ctor { ctor: _, fields: _ },
                    p@.kind->Ctor_ctor == *kind,
                    0 <= x <= rows@.len(),
                    out@.len() == x,
                    forall|y: int| 0 <= y < x ==> pat_view(#[trigger] out@[y]) == (SPat {
                        kind: SPatKind::Ctor { ctor: p@.kind->Ctor_ctor, fields: frows[y] },
                        ty: p@.ty,
                    }),
                decreases rows@.len() - x,
            {
                let fs = crate::pattern::clone_pats(&rows[x].inner);
                let pat = SimplifiedPattern::new(
                    SimplifiedPatternKind::Constructor { kind: *kind, fields: fs },
                    p.ty,
                );
                proof {
                    assert(rows_view(rows@)[x as int] == rows@[x as int]@);
                    assert(pat@.kind->Ctor_fields =~= frows[x as int]);
                    assert(pat@ =~~= (SPat {
                        kind: SPatKind::Ctor { ctor: p@.kind->Ctor_ctor, fields: frows[x as int] },
                        ty: p@.ty,
                    }));
                }
                out.push(pat);
                x = x + 1;
            }
            proof {
                crate::pattern::lemma_pats_view_len(out@);
                assert forall|y: int| 0 <= y < out@.len() implies pats_view(out@)[y]
                    == spec_expand_pat(p@)[y] by {
                    crate::pattern::lemma_pats_view_index(out@, y);
                }
                assert(pats_view(out@) =~= spec_expand_pat(p@));
            }
            out
        },
        SimplifiedPatternKind::Or(ps) => {
            proof {
                assert(p@.kind->Or_0 =~= pats_view(ps@));
                assert(fsize(p@) == 1 + fsize_seq(pats_view(ps@)));
                assert(pats_view(ps@).skip(0) =~= pats_view(ps@));
            }
            expand_or_parts(ps, 0)
        },
    }
}

/// The alternatives of the or-block `ps` from index `j` on.
fn expand_or_parts(ps: &Vec<SimplifiedPattern>, j: usize) -> (r: Vec<SimplifiedPattern>)
    requires
        j <= ps@.len(),
    ensures
        pats_view(r@) == spec_expand_or(pats_view(ps@).skip(j as int)),
    decreases fsize_seq(pats_view(ps@).skip(j as int)), 1int, 0int,
{
    let ghost whole = pats_view(ps@);
    proof {
        crate::pattern::lemma_pats_view_len(ps@);
    }
    if j == ps.len() {
        let r: Vec<SimplifiedPattern> = Vec::new();
        proof {
            assert(whole.skip(j as int).len() == 0);
            assert(pats_view(r@) =~= spec_expand_or(whole.skip(j as int)));
        }
        r
    } else {
        proof {
            crate::pattern::lemma_pats_view_index(ps@, j as int);
            assert(whole.skip(j as int)[0] == pat_view(ps@[j as int]));
            assert(whole.skip(j as int).drop_first() =~= whole.skip(j as int + 1));
            assert(fsize_seq(whole.skip(j as int)) == fsize(whole.skip(j as int)[0]) + fsize_seq(
                whole.skip(j as int).drop_first(),
            ));
            lemma_fsize_pos(whole.skip(j as int)[0]);
        }
        let mut head = expand_pattern(&ps[j]);
        let ghost head_view = pats_view(head@);
        let ghost head_seq = head@;
        let mut tail = expand_or_parts(ps, j + 1);
        let ghost tail_seq = tail@;
        let ghost tail_view = pats_view(tail@);
        head.append(&mut tail);
        proof {
            crate::pattern::lemma_pats_view_len(head@);
            crate::pattern::lemma_pats_view_len(head_seq);
            crate::pattern::lemma_pats_view_len(tail_seq);
            assert forall|m: int| 0 <= m < head@.len() implies pats_view(head@)[m] == (head_view
                + tail_view)[m] by {
                crate::pattern::lemma_pats_view_index(head@, m);
                if m < head_seq.len() {
                    crate::pattern::lemma_pats_view_index(head_seq, m);
                } else {
                    crate::pattern::lemma_pats_view_index(tail_seq, m - head_seq.len());
                }
            }
            assert(pats_view(head@) =~= head_view + tail_view);
            assert(pats_view(head@) =~= spec_expand_or(whole.skip(j as int)));
        }
        head
    }
}

/// The alternative rows of the row's columns from `from` on: the cartesian
/// combinations of the columns' alternatives.
fn expand_row_parts(row: &Vec<SimplifiedPattern>, from: usize) -> (r: Vec<PatternRowVec>)
    requires
        from <= row@.len(),
    ensures
        rows_view(r@) == spec_expand_row(pats_view(row@).skip(from as int)),
    decreases fsize_seq(pats_view(row@).skip(from as int)), 1int, 0int,
{
    let ghost whole = pats_view(row@);
    proof {
        crate::pattern::lemma_pats_view_len(row@);
    }
    if from == row.len() {
        let mut r: Vec<PatternRowVec> = Vec::new();
        r.push(PatternRowVec { inner: Vec::new() });
        proof {
            assert(whole.skip(from as int).len() == 0);
            assert(r@[0]@ =~= Seq::<SPat>::empty());
            assert(rows_view(r@).len() == 1);
            assert(rows_view(r@)[0] == r@[0]@);
            assert(spec_expand_row(whole.skip(from as int)) =~= seq![Seq::<SPat>::empty()]);
            assert(rows_view(r@) =~= spec_expand_row(whole.skip(from as int)));
        }
        r
    } else {
        proof {
            crate::pattern::lemma_pats_view_index(row@, from as int);
            assert(whole.skip(from as int)[0] == pat_view(row@[from as int]));
            assert(whole.skip(from as int).drop_first() =~= whole.skip(from as int + 1));
            assert(fsize_seq(whole.skip(from as int)) == fsize(whole.skip(from as int)[0])
                + fsize_seq(whole.skip(from as int).drop_first()));
            lemma_fsize_pos(whole.skip(from as int)[0]);
        }
        let heads = expand_pattern(&row[from]);
        let tails = expand_row_parts(row, from + 1);
        let r = cross_parts(&heads, 0, &tails);
        proof {
            assert(pats_view(heads@).skip(0) =~= pats_view(heads@));
        }
        r
    }
}

/// Each head from `hi` on, paired with each tail.
fn cross_parts(heads: &Vec<SimplifiedPattern>, hi: usize, tails: &Vec<PatternRowVec>) -> (r: Vec<
    PatternRowVec,
>)
    requires
        hi <= heads@.len(),
    ensures
        rows_view(r@) == spec_cross(pats_view(heads@).skip(hi as int), rows_view(tails@)),
    decreases heads@.len() - hi,
{
    let ghost hview = pats_view(heads@);
    proof {
        crate::pattern::lemma_pats_view_len(heads@);
    }
    if hi == heads.len() {
        let r: Vec<PatternRowVec> = Vec::new();
        proof {
            assert(hview.skip(hi as int).len() == 0);
            assert(rows_view(r@) =~= spec_cross(hview.skip(hi as int), rows_view(tails@)));
        }
        r
    } else {
        proof {
            crate::pattern::lemma_pats_view_index(heads@, hi as int);
            assert(hview.skip(hi as int)[0] == pat_view(heads@[hi as int]));
            assert(hview.skip(hi as int).drop_first() =~= hview.skip(hi as int + 1));
        }
        let ghost block_spec = rows_view(tails@).map_values(
            |t: Seq<SPat>| seq![hview.skip(hi as int)[0]] + t,
        );
        let mut out: Vec<PatternRowVec> = Vec::new();
        let mut t: usize = 0;
        while t < tails.len()
            invariant
                hi < heads@.len(),
                hview == pats_view(heads@),
                hview.len() == heads@.len(),
                block_spec == rows_view(tails@).map_values(
                    |tl: Seq<SPat>| seq![hview.skip(hi as int)[0]] + tl,
                ),
                0 <= t <= tails@.len(),
                out@.len() == t,
                forall|y: int| 0 <= y < t ==> (#[trigger] out@[y])@ == block_spec[y],
            decreases tails@.len() - t,
        {
            let mut inner: Vec<SimplifiedPattern> = Vec::new();
            let h = heads[hi].clone();
            inner.push(h);
            let mut rest = crate::pattern::clone_pats(&tails[t].inner);
            let ghost rest_seq = rest@;
            inner.append(&mut rest);
            proof {
                crate::pattern::lemma_pats_view_index(heads@, hi as int);
                crate::pattern::lemma_pats_view_len(inner@);
                crate::pattern::lemma_pats_view_len(rest_seq);
                crate::pattern::lemma_pats_view_len(tails@[t as int].inner@);
                assert forall|m: int| 0 <= m < inner@.len() implies pats_view(inner@)[m] == (seq![
                    hview.skip(hi as int)[0],
                ] + rows_view(tails@)[t as int])[m] by {
                    crate::pattern::lemma_pats_view_index(inner@, m);
                    if m > 0 {
                        crate::pattern::lemma_pats_view_index(rest_seq, m - 1);
                        crate::pattern::lemma_pats_view_index(tails@[t as int].inner@, m - 1);
                        assert(inner@[m] == rest_seq[m - 1]);
                    }
                }
                assert(pats_view(inner@) =~= seq![hview.skip(hi as int)[0]] + rows_view(
                    tails@,
                )[t as int]);
            }
            out.push(PatternRowVec { inner });
            t = t + 1;
        }
        let mut more = cross_parts(heads, hi + 1, tails);
        let ghost more_seq = more@;
        let ghost out_before = out@;
        out.append(&mut more);
        proof {
            assert forall|y: int| 0 <= y < out@.len() implies rows_view(out@)[y] == (block_spec
                + spec_cross(hview.skip(hi as int + 1), rows_view(tails@)))[y] by {
                if y < out_before.len() {
                    assert(out@[y] == out_before[y]);
                } else {
                    assert(out@[y] == more_seq[y - out_before.len()]);
                    assert(rows_view(more_seq)[y - out_before.len()] == more_seq[y
                        - out_before.len()]@);
                }
            }
            assert(rows_view(out@) =~= spec_cross(hview.skip(hi as int), rows_view(tails@)));
        }
        out
    }
}


/// What a freshly built matrix satisfies before or-expansion: well typed
/// rows, uniform width, consistent column types; or-patterns allowed.
pub open spec fn matrix_input_ok(cat: TypeCatalog, rows: Seq<Seq<SPat>>) -> bool {
    rows.len() == 0 || ((forall|j: int|
        0 <= j < rows.len() ==> pats_typed(cat, #[trigger] rows[j]) && rows[j].len()
            == rows[0].len()) && cols_are(rows, matrix_cols(rows), 0))
}

/// Every row of the or-expansion of a well typed uniform block is or-free,
/// well typed, as wide and column-typed alike.
proof fn lemma_expand_from_props(
    cat: TypeCatalog,
    rows: Seq<Seq<SPat>>,
    k: int,
    tys: Seq<TypeId>,
    i: int,
)
    requires
        0 <= i <= rows.len(),
        tys.len() == k,
        forall|j: int|
            i <= j < rows.len() ==> pats_typed(cat, #[trigger] rows[j]) && rows[j].len() == k,
        cols_are(rows, tys, i),
    ensures
        rows_ok(cat, spec_expand_from(rows, i), k),
        cols_are(spec_expand_from(rows, i), tys, 0),
    decreases rows.len() - i,
{
    if i < rows.len() {
        lemma_expand_from_props(cat, rows, k, tys, i + 1);
        lemma_expand_row_props(cat, rows[i]);
        let head = spec_expand_row(rows[i]);
        let tail = spec_expand_from(rows, i + 1);
        assert(rows_ok(cat, head, k) && cols_are(head, tys, 0)) by {
            assert forall|x: int| 0 <= x < head.len() implies or_free_seq(#[trigger] head[x])
                && pats_typed(cat, head[x]) && head[x].len() == k by {
                assert(row_alt_ok(cat, rows[i], head[x]));
            }
            assert forall|x: int, m: int|
                0 <= x < head.len() && 0 <= m < head[x].len() && m < tys.len() implies (
            #[trigger] head[x][m]).ty == tys[m] by {
                assert(row_alt_ok(cat, rows[i], head[x]));
                assert(head[x][m].ty == rows[i][m].ty);
            }
        }
        assert forall|x: int| 0 <= x < (head + tail).len() implies or_free_seq(
            #[trigger] (head + tail)[x],
        ) && pats_typed(cat, (head + tail)[x]) && (head + tail)[x].len() == k by {
            if x < head.len() {
                assert((head + tail)[x] == head[x]);
            } else {
                assert((head + tail)[x] == tail[x - head.len()]);
            }
        }
        assert forall|x: int, m: int|
            0 <= x < (head + tail).len() && 0 <= m < (head + tail)[x].len() && m
                < tys.len() implies (#[trigger] (head + tail)[x][m]).ty == tys[m] by {
            if x < head.len() {
                assert((head + tail)[x] == head[x]);
            } else {
                assert((head + tail)[x] == tail[x - head.len()]);
            }
        }
    }
}

/// The or-expansion of a well formed input matrix is fit for
/// specialization.
pub proof fn lemma_expanded_matrix_ok(cat: TypeCatalog, rows: Seq<Seq<SPat>>)
    requires
        matrix_input_ok(cat, rows),
    ensures
        matrix_ok(cat, spec_expand_from(rows, 0)),
{
    if rows.len() > 0 {
        let k = rows[0].len() as int;
        let tys = matrix_cols(rows);
        lemma_expand_from_props(cat, rows, k, tys, 0);
        let e = spec_expand_from(rows, 0);
        if e.len() > 0 {
            assert(e[0].len() == k);
            lemma_matrix_ok_of(cat, e, k, tys);
        }
    }
}

impl PatternMatrix {
    /// Decides coverage: nothing when the rows cover every value, else a
    /// witness with one pattern per remaining column. Rows with or-patterns
    /// are split into one row per alternative up front; the specialization
    /// steps then need no or-pattern case, and cover the same values as
    /// splitting lazily at each step would.
    pub fn find_non_exhaustiveness(&self, cat: &TypeCatalog) -> (r: Option<
        Vec<SimplifiedPattern>,
    >)
        requires
            cat.wf(),
            matrix_input_ok(*cat, self@),
        ensures
            opt_rows_view(r) == spec_find(*cat, spec_expand_from(self@, 0)),
    {
        let expanded = PatternMatrix { rows: self.expand_rows_from(0) };
        proof {
            lemma_expanded_matrix_ok(*cat, self@);
        }
        expanded.find_inner(cat)
    }

    fn expand_rows_from(&self, i: usize) -> (r: Vec<PatternRowVec>)
        requires
            i <= self.rows@.len(),
        ensures
            rows_view(r@) == spec_expand_from(self@, i as int),
        decreases self.rows@.len() - i,
    {
        if i == self.rows.len() {
            let r: Vec<PatternRowVec> = Vec::new();
            proof {
                assert(rows_view(r@) =~= spec_expand_from(self@, i as int));
            }
            r
        } else {
            proof {
                assert(self@[i as int] == self.rows@[i as int]@);
                assert(pats_view(self.rows@[i as int].inner@).skip(0) =~= pats_view(
                    self.rows@[i as int].inner@,
                ));
            }
            let mut head = expand_row_parts(&self.rows[i].inner, 0);
            let ghost head_rows = rows_view(head@);
            let mut tail = self.expand_rows_from(i + 1);
            let ghost tail_rows = rows_view(tail@);
            head.append(&mut tail);
            proof {
                assert(rows_view(head@) =~= head_rows + tail_rows);
                assert(rows_view(head@) =~= spec_expand_from(self@, i as int));
            }
            head
        }
    }
}

/// A lone wildcard arm is exhaustive for any scrutinee type, enums of any
/// variant count included: the one-row, one-wildcard matrix is always
/// covered.
pub proof fn lemma_lone_wildcard_arm_is_exhaustive(cat: TypeCatalog, ty: TypeId)
    ensures
        spec_find(cat, seq![seq![SPat { kind: SPatKind::Wild, ty }]]) is None,
{
    let w = SPat { kind: SPatKind::Wild, ty };
    let rows = seq![seq![w]];
    assert(or_free(w) && pat_typed(cat, w));
    assert(or_free_seq(seq![w]) && pats_typed(cat, seq![w])) by {
        assert(seq![w][0] == w);
        assert(seq![w].drop_first() =~= Seq::<SPat>::empty());
        assert(or_free_seq(Seq::<SPat>::empty()));
        assert(pats_typed(cat, Seq::<SPat>::empty()));
    }
    assert(matrix_ok(cat, rows)) by {
        assert(rows_ok(cat, rows, 1)) by {
            assert forall|j: int| 0 <= j < rows.len() implies or_free_seq(#[trigger] rows[j])
                && pats_typed(cat, rows[j]) && rows[j].len() == 1 by {
                assert(rows[j] == seq![w]);
            }
        }
    }
    let sigma = spec_sigma(rows);
    assert(sigma =~= Seq::<ConstructorKind>::empty()) by {
        assert(crate::pattern::spec_collect_ctors(w) =~= Seq::<ConstructorKind>::empty());
        assert(spec_sigma_prefix(rows, 0) =~= Seq::<ConstructorKind>::empty());
        assert(spec_insert_ctors_prefix(
            spec_sigma_prefix(rows, 0),
            crate::pattern::spec_collect_ctors(rows[0][0]),
            0,
        ) =~= Seq::<ConstructorKind>::empty());
    }
    assert(!spec_is_complete(cat, sigma));
    let d = spec_d_from(rows, 0);
    assert(d =~= seq![Seq::<SPat>::empty()]) by {
        assert(spec_d_row(seq![w]) =~= seq![seq![w].drop_first()]);
        assert(seq![w].drop_first() =~= Seq::<SPat>::empty());
        assert(spec_d_from(rows, 1) =~= Seq::<Seq<SPat>>::empty());
    }
    assert(matrix_ok(cat, d)) by {
        assert(rows_ok(cat, d, 0)) by {
            assert forall|j: int| 0 <= j < d.len() implies or_free_seq(#[trigger] d[j])
                && pats_typed(cat, d[j]) && d[j].len() == 0 by {
                assert(d[j] =~= Seq::<SPat>::empty());
            }
        }
    }
    assert(spec_find(cat, d) is None);
    assert(spec_find(cat, rows) is None);
}

} // verus!
