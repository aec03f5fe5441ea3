//! An index without a check is in range, and a loop variable without a copy is not changed.
use vstd::prelude::*;

use crate::analysis;
use crate::analysis::{BceBound, Mention};
use crate::bounds_laws;
use crate::change_laws;
use crate::context::{Cx, St};
use crate::data_laws;
use crate::drops;
use crate::hir::{HBlock, HExpr, HExprKind, HStmt, HType, LocalId};
use crate::lowered;
use crate::pieces;
use crate::pieces::{Piece, Val};
use crate::places;
use crate::scan_laws;
use crate::text;
use crate::value_laws;

verus! {

/// What the numbers in a program are at some moment: the values of its locals, and the
/// lengths of the slices and vectors that they hold.
pub struct Moment {
    pub value: spec_fn(u32) -> int,
    pub len: spec_fn(u32) -> int,
}

/// Every known counter is within its bound.
pub open spec fn counters_hold(m: Moment, bounded: Seq<(u32, BceBound)>) -> bool {
    forall|i: int|
        0 <= i < bounded.len() ==> 0 <= (m.value)((#[trigger] bounded[i]).0) && (
        match bounded[i].1 {
            BceBound::Const(n) => (m.value)(bounded[i].0) < n,
            BceBound::SliceLen(s) => (m.value)(bounded[i].0) < (m.len)(s),
        })
}

/// The value of an index: a literal or a local.
pub open spec fn index_value(m: Moment, idx: HExpr) -> int {
    match idx.kind {
        HExprKind::LitInt(n) => n as int,
        HExprKind::Local(id) => (m.value)(id.0),
        _ => -1,
    }
}

/// An index into a fixed array that goes without a check is in range whenever the known
/// counters are within their bounds.
pub proof fn law_unchecked_array_index_is_in_range(
    bounded: Seq<(u32, BceBound)>,
    len: i64,
    idx: HExpr,
    m: Moment,
)
    requires
        places::const_bounded(bounded, len, idx),
        counters_hold(m, bounded),
    ensures
        0 <= index_value(m, idx) < len,
{
    if let HExprKind::Local(id) = idx.kind {
        let i = choose|i: int|
            0 <= i < bounded.len() && (#[trigger] bounded[i]).0 == id.0 && (match bounded[i].1 {
                BceBound::Const(ub) => ub <= len,
                BceBound::SliceLen(_) => false,
            });
        assert(0 <= (m.value)(bounded[i].0));
    }
}

/// An index into a slice or vector that goes without a check is below its length whenever the
/// known counters are within their bounds.
pub proof fn law_unchecked_slice_index_is_in_range(
    bounded: Seq<(u32, BceBound)>,
    base: HExpr,
    idx: HExpr,
    m: Moment,
)
    requires
        places::slice_bounded(bounded, base, idx),
        counters_hold(m, bounded),
    ensures
        base.kind matches HExprKind::Local(b) && 0 <= index_value(m, idx) < (m.len)(b.0),
{
    if let (HExprKind::Local(b), HExprKind::Local(i)) = (base.kind, idx.kind) {
        let j = choose|j: int|
            0 <= j < bounded.len() && #[trigger] bounded[j] == (i.0, BceBound::SliceLen(b.0));
        assert(0 <= (m.value)(bounded[j].0));
    }
}

/// The check is left out wherever it is known to be needless: for a literal in range, and for
/// a counter whose bound is no more than the length.
pub proof fn law_needless_checks_are_left_out(
    bounded: Seq<(u32, BceBound)>,
    i: int,
    len: i64,
    base: HExpr,
    idx: HExpr,
)
    ensures
        idx.kind matches HExprKind::LitInt(n) ==> (places::const_bounded(bounded, len, idx)
            <==> 0 <= n
            < len),
        0 <= i < bounded.len() && idx.kind == HExprKind::Local(LocalId(bounded[i].0)) ==> (
        match bounded[i].1 {
            BceBound::Const(n) => n <= len ==> places::const_bounded(bounded, len, idx),
            BceBound::SliceLen(s) => base.kind == HExprKind::Local(LocalId(s))
                ==> places::slice_bounded(
                bounded,
                base,
                idx,
            ),
        }),
{
    if 0 <= i < bounded.len() && idx.kind == HExprKind::Local(LocalId(bounded[i].0)) {
        match bounded[i].1 {
            BceBound::Const(n) => {
                assert(bounded[i].0 == bounded[i].0);
            },
            BceBound::SliceLen(s) => {
                assert(bounded[i] == (bounded[i].0, BceBound::SliceLen(s)));
            },
        }
    }
}

/// The written element has its check exactly where the index is not known to be in range.
pub proof fn law_check_where_the_range_is_open(
    d: nat,
    cx: Cx,
    st: St,
    base: HExpr,
    idx: HExpr,
    ty: HType,
    b: Piece,
    i: Piece,
)
    requires
        b.text == lowered::expr_c(d, cx, st, base).text,
        i.text == lowered::expr_c(d, cx, lowered::expr_c(d, cx, st, base).st, idx).text,
    ensures
        ({
            let text = lowered::expr_c(d, cx, st, bounds_laws::element(base, idx, ty)).text;
            let free = pieces::cast("maka_int"@, pieces::paren(i));
            match base.ty {
                HType::Array { len, .. } => {
                    let bound = pieces::cast("maka_int"@,
                        pieces::constant(text::decimal(len as int), Val::Num(len as int)));
                    text == (if places::const_bounded(cx.bounded, len, idx) {
                        pieces::paren(pieces::indexed(pieces::paren(b), free))
                    } else {
                        pieces::paren(pieces::indexed(pieces::paren(b), data_laws::checked(i, bound,
                            "array idx"@)))
                    }).text
                },
                HType::Slice { .. } => text == (if places::slice_bounded(cx.bounded, base, idx) {
                    pieces::paren(pieces::indexed(pieces::dot(pieces::paren(b), "ptr"@), free))
                } else {
                    pieces::paren(
                        pieces::indexed(
                            pieces::dot(pieces::paren(b), "ptr"@),
                            data_laws::checked(i, pieces::dot(pieces::paren(b), "len"@),
                                "slice idx"@),
                        ),
                    )
                }).text,
                HType::Vec { .. } => text == (if places::slice_bounded(cx.bounded, base, idx) {
                    pieces::paren(pieces::indexed(pieces::dot(pieces::paren(b), "data"@), free))
                } else {
                    pieces::paren(
                        pieces::indexed(
                            pieces::dot(pieces::paren(b), "data"@),
                            data_laws::checked(i, pieces::dot(pieces::paren(b), "len"@),
                                "vec idx"@),
                        ),
                    )
                }).text,
                _ => true,
            }
        }),
{
    reveal(lowered::expr_c);
    let text = lowered::expr_c(d, cx, st, bounds_laws::element(base, idx, ty)).text;
    assert(text == places::index_text(cx.bounded, base, idx, b.text, i.text));
    let n = bounds_laws::indexed_len(base.ty);
    data_laws::lemma_array_element(b, i, n, places::const_bounded(cx.bounded, n, idx));
    data_laws::lemma_slice_element(b, i);
    data_laws::lemma_vec_element(b, i);
}

/// A loop variable stands for the element itself, without a copy, only where it is a struct
/// that owns nothing and nothing in the body assigns to it or lends it mutably, at any depth,
/// and the same holds of the local that the source belongs to, or else of every local that the
/// source reads.
pub proof fn law_alias_is_never_changed(
    cx: Cx,
    var: LocalId,
    src: HExpr,
    body: HBlock,
    i: int,
    iv: u32,
)
    requires
        lowered::can_alias(cx, var, src, body),
        0 <= i < body.stmts@.len(),
        iv == var.0 || change_laws::rooted(src, iv) || (analysis::root_of(src) is None
            && iv < cx.f.locals@.len()
            && analysis::reads_local(src, iv)),
    ensures
        cx.f.locals@[var.0 as int].ty is Struct,
        !drops::ty_owns(cx.sym, cx.owns, cx.f.locals@[var.0 as int].ty),
        forall|t: HStmt| #[trigger] change_laws::stmt_holds(body.stmts@[i], t)
            ==> !change_laws::assigns_to(t, iv),
        forall|p: HExpr| #[trigger] scan_laws::stmt_occurs(body.stmts@[i], p)
            ==> !change_laws::lends(p, iv),
        analysis::root_of(src) is None ==> !analysis::mentions(src, Mention::Global),
{
    change_laws::law_root_is_the_local(src, iv);
    change_laws::law_mutation_in_a_block_is_found(body, iv);
    change_laws::law_mutation_is_found(body.stmts@[i], iv);
    assert(!analysis::stmt_mutates(body.stmts@[i], iv));
}

/// Where none of that is in the way, the variable is not copied.
pub proof fn law_unchanged_elements_are_not_copied(
    cx: Cx,
    var: LocalId,
    src: HExpr,
    body: HBlock,
    root: u32,
)
    requires
        cx.f.locals@[var.0 as int].ty is Struct,
        !drops::ty_owns(cx.sym, cx.owns, cx.f.locals@[var.0 as int].ty),
        !analysis::block_mutates(body, var.0),
        change_laws::rooted(src, root),
        !analysis::block_mutates(body, root),
    ensures
        lowered::can_alias(cx, var, src, body),
{
    change_laws::law_root_is_the_local(src, root);
}

/// What a place may be moved out of. A local and a global are owned. A field or an element of
/// a value is owned where the value is, and behind `&mut` too; behind an owning pointer it is
/// always, and behind a shared borrow or a pointer that does not own never.
pub proof fn law_owned_places(base: HExpr, field: usize, idx: HExpr, ty: HType, id: LocalId)
    ensures
        analysis::owned_place(value_laws::an_expr(HExprKind::Local(id), ty)),
        ({
            let f = value_laws::an_expr(HExprKind::Field { base: Box::new(base), field }, ty);
            let i = bounds_laws::element(base, idx, ty);
            &&& analysis::owned_place(f) == analysis::owned_place(i)
            &&& base.ty is Struct || base.ty is Enum || base.ty is Array || base.ty is Vec ==> (
            analysis::owned_place(f) <==> analysis::owned_place(base))
            &&& base.ty is OwnPtr || base.ty is Heap ==> analysis::owned_place(f)
            &&& base.ty is Ptr || base.ty is RawPtr || base.ty is Slice
                ==> !analysis::owned_place(f)
            &&& base.ty matches HType::Ref { mutable, .. } ==> (analysis::owned_place(f)
                <==> mutable
                && analysis::owned_place(base))
        }),
        ({
            let u = value_laws::an_expr(HExprKind::Unwrap { expr: Box::new(base),
                skip_check: true }, ty);
            analysis::owned_place(u) <==> base.ty is OwnPtr || base.ty is Heap
        }),
{
    reveal_with_fuel(analysis::owned_place, 3);
    reveal_with_fuel(analysis::owned_base, 3);
}

} // verus!
