//! Field and element access.
use vstd::prelude::*;

use crate::analysis::BceBound;
use crate::hir::{HExpr, HExprKind, HType, StructId, SymTab};
use crate::text;
use crate::text::{c_ident, cat5, cat7, dec_i64};

verus! {

/// The struct behind any number of borrows and pointers.
pub open spec fn struct_behind(t: HType) -> Option<StructId>
    decreases t,
{
    match t {
        HType::Struct(id) => Some(id),
        HType::Ref { inner, .. } | HType::Ptr { inner, .. } | HType::RawPtr { inner, .. }
        | HType::OwnPtr { inner, .. } => struct_behind(*inner),
        HType::Heap { inner } => struct_behind(*inner),
        _ => None,
    }
}

fn peel(t: &HType) -> (r: Option<StructId>)
    ensures
        r == struct_behind(*t),
    decreases t,
{
    match t {
        HType::Struct(id) => Some(*id),
        HType::Ref { inner, .. } | HType::Ptr { inner, .. } | HType::RawPtr { inner, .. }
        | HType::OwnPtr { inner, .. } => peel(inner),
        HType::Heap { inner } => peel(inner),
        _ => None,
    }
}

/// A value of type `t` leads to a struct that has the field.
pub open spec fn has_field(sym: SymTab, t: HType, field: usize) -> bool {
    match struct_behind(t) {
        Some(id) => sym.has_struct(id) && field < sym.the_struct(id).fields@.len(),
        None => false,
    }
}

/// A value of the type is a pointer in C.
pub open spec fn is_pointer(t: HType) -> bool {
    t is Ref || t is Ptr || t is RawPtr || t is OwnPtr || t is Heap
}

/// How C reaches a field of a value of type `t`.
pub open spec fn arrow_text(t: HType) -> Seq<char> {
    if is_pointer(t) { "->"@ } else { "."@ }
}

/// The C name of a field of the struct behind `t`.
pub open spec fn field_text(sym: SymTab, t: HType, field: usize) -> Seq<char> {
    text::ident(sym.the_struct(struct_behind(t)->0).fields@[field as int].name@)
}

/// The operator and the name that select a field.
pub fn field_access(sym: &SymTab, base: &HExpr, field: usize) -> (r: (&'static str, String))
    requires
        has_field(*sym, base.ty, field),
    ensures
        r.0@ == arrow_text(base.ty),
        r.1@ == field_text(*sym, base.ty, field),
{
    let arrow: &'static str = match &base.ty {
        HType::Ref { .. } | HType::Ptr { .. } | HType::RawPtr { .. } | HType::OwnPtr { .. }
        | HType::Heap { .. } => "->",
        _ => ".",
    };
    match peel(&base.ty) {
        Some(id) => (arrow, c_ident(&sym.struct_info(id).fields[field].name)),
        None => (arrow, String::new()),
    }
}

/// An index into a fixed array of length `len` that needs no check: a literal in
/// range, or a loop counter whose bound is no more than the length.
pub open spec fn const_bounded(bounded: Seq<(u32, BceBound)>, len: i64, idx: HExpr) -> bool {
    match idx.kind {
        HExprKind::LitInt(n) => 0 <= n < len,
        HExprKind::Local(id) => exists|i: int|
            0 <= i < bounded.len() && (#[trigger] bounded[i]).0 == id.0 && (match bounded[i].1 {
                BceBound::Const(ub) => ub <= len,
                BceBound::SliceLen(_) => false,
            }),
        _ => false,
    }
}

/// Tests whether an index into a fixed array needs no check.
pub fn idx_in_const_bound(bounded: &Vec<(u32, BceBound)>, len: i64, idx: &HExpr) -> (r: bool)
    ensures
        r == const_bounded(bounded@, len, *idx),
{
    match &idx.kind {
        HExprKind::LitInt(n) => *n >= 0 && *n < len,
        HExprKind::Local(id) => {
            let total: usize = bounded.len();
            let mut i: usize = 0;
            while i < total
                invariant
                    i <= total,
                    total == bounded@.len(),
                    idx.kind == HExprKind::Local(*id),
                    forall|j: int|
                        0 <= j < i ==> !((#[trigger] bounded@[j]).0 == id.0 && (match bounded@[j].1 {
                            BceBound::Const(ub) => ub <= len,
                            BceBound::SliceLen(_) => false,
                        })),
                decreases total - i,
            {
                let (local, bound) = bounded[i];
                let fits: bool = match bound {
                    BceBound::Const(ub) => ub <= len,
                    BceBound::SliceLen(_) => false,
                };
                if local == id.0 && fits {
                    assert(bounded@[i as int].0 == id.0);
                    return true;
                }
                i += 1;
            }
            false
        },
        _ => false,
    }
}

/// An index into the slice or vector `base` that needs no check: a loop counter
/// that is bounded by the length of that very local.
pub open spec fn slice_bounded(bounded: Seq<(u32, BceBound)>, base: HExpr, idx: HExpr) -> bool {
    match (base.kind, idx.kind) {
        (HExprKind::Local(b), HExprKind::Local(i)) => exists|j: int|
            0 <= j < bounded.len() && #[trigger] bounded[j] == (i.0, BceBound::SliceLen(b.0)),
        _ => false,
    }
}

/// Tests whether an index into a slice or vector needs no check.
pub fn idx_in_slice_bound(bounded: &Vec<(u32, BceBound)>, base: &HExpr, idx: &HExpr) -> (r: bool)
    ensures
        r == slice_bounded(bounded@, *base, *idx),
{
    match (&base.kind, &idx.kind) {
        (HExprKind::Local(b), HExprKind::Local(i)) => {
            let total: usize = bounded.len();
            let mut j: usize = 0;
            while j < total
                invariant
                    j <= total,
                    total == bounded@.len(),
                    base.kind == HExprKind::Local(*b),
                    idx.kind == HExprKind::Local(*i),
                    forall|k: int|
                        0 <= k < j ==> #[trigger] bounded@[k] != (i.0, BceBound::SliceLen(b.0)),
                decreases total - j,
            {
                let (local, bound) = bounded[j];
                let same: bool = match bound {
                    BceBound::SliceLen(s) => s == b.0,
                    BceBound::Const(_) => false,
                };
                if local == i.0 && same {
                    assert(bounded@[j as int] == (i.0, BceBound::SliceLen(b.0)));
                    return true;
                }
                j += 1;
            }
            false
        },
        _ => false,
    }
}

/// An element of a fixed array, checked or not.
pub open spec fn array_elem_text(b: Seq<char>, i: Seq<char>, len: i64, in_bounds: bool) -> Seq<char> {
    if in_bounds {
        "(("@ + b + ")[(maka_int)("@ + i + ")])"@
    } else {
        "(("@ + b + ")[maka_check_idx((maka_int)("@ + i + "), (maka_int)"@ + text::decimal(len as int)
            + ", \"array idx\")])"@
    }
}

fn array_elem(b: &str, i: &str, len: i64, in_bounds: bool) -> (r: String)
    ensures
        r@ == array_elem_text(b@, i@, len, in_bounds),
{
    if in_bounds {
        cat5("((", b, ")[(maka_int)(", i, ")])")
    } else {
        cat7(
            "((",
            b,
            ")[maka_check_idx((maka_int)(",
            i,
            "), (maka_int)",
            &dec_i64(len),
            ", \"array idx\")])",
        )
    }
}

/// An element of a vector, with its check.
pub open spec fn checked_vec_text(b: Seq<char>, i: Seq<char>) -> Seq<char> {
    "(("@ + b + ").data[maka_check_idx((maka_int)("@ + i + "), ("@ + b + ").len, \"vec idx\")])"@
}

fn checked_vec(b: &str, i: &str) -> (r: String)
    ensures
        r@ == checked_vec_text(b@, i@),
{
    cat7(
        "((",
        b,
        ").data[maka_check_idx((maka_int)(",
        i,
        "), (",
        b,
        ").len, \"vec idx\")])",
    )
}

/// The element `base[idx]`, given the C text of both. Its check is left out where
/// the index is known to be in bounds.
pub open spec fn index_text(
    bounded: Seq<(u32, BceBound)>,
    base: HExpr,
    idx: HExpr,
    b: Seq<char>,
    i: Seq<char>,
) -> Seq<char> {
    let bare = "(("@ + b + ")["@ + i + "])"@;
    match base.ty {
        HType::Array { len, .. } => array_elem_text(b, i, len, const_bounded(bounded, len, idx)),
        HType::Slice { .. } => if slice_bounded(bounded, base, idx) {
            "(("@ + b + ").ptr[(maka_int)("@ + i + ")])"@
        } else {
            "(("@ + b + ").ptr[maka_check_idx((maka_int)("@ + i + "), ("@ + b
                + ").len, \"slice idx\")])"@
        },
        HType::Vec { .. } => if slice_bounded(bounded, base, idx) {
            "(("@ + b + ").data[(maka_int)("@ + i + ")])"@
        } else {
            checked_vec_text(b, i)
        },
        HType::Heap { inner } => match *inner {
            HType::Array { len, .. } => array_elem_text(b, i, len, const_bounded(bounded, len, idx)),
            HType::Vec { .. } => checked_vec_text(b, i),
            _ => bare,
        },
        HType::Ref { inner, .. } | HType::Ptr { inner, .. } => match *inner {
            HType::Array { len, .. } => array_elem_text(b, i, len, const_bounded(bounded, len, idx)),
            _ => bare,
        },
        _ => bare,
    }
}

/// Writes an element access.
pub fn index_access(
    bounded: &Vec<(u32, BceBound)>,
    base: &HExpr,
    idx: &HExpr,
    b: &str,
    i: &str,
) -> (r: String)
    ensures
        r@ == index_text(bounded@, *base, *idx, b@, i@),
{
    match &base.ty {
        HType::Array { len, .. } => array_elem(b, i, *len, idx_in_const_bound(bounded, *len, idx)),
        HType::Slice { .. } => if idx_in_slice_bound(bounded, base, idx) {
            cat5("((", b, ").ptr[(maka_int)(", i, ")])")
        } else {
            cat7(
                "((",
                b,
                ").ptr[maka_check_idx((maka_int)(",
                i,
                "), (",
                b,
                ").len, \"slice idx\")])",
            )
        },
        HType::Vec { .. } => if idx_in_slice_bound(bounded, base, idx) {
            cat5("((", b, ").data[(maka_int)(", i, ")])")
        } else {
            checked_vec(b, i)
        },
        HType::Heap { inner } => match &**inner {
            HType::Array { len, .. } => array_elem(
                b,
                i,
                *len,
                idx_in_const_bound(bounded, *len, idx),
            ),
            HType::Vec { .. } => checked_vec(b, i),
            _ => cat5("((", b, ")[", i, "])"),
        },
        HType::Ref { inner, .. } | HType::Ptr { inner, .. } => match &**inner {
            HType::Array { len, .. } => array_elem(
                b,
                i,
                *len,
                idx_in_const_bound(bounded, *len, idx),
            ),
            _ => cat5("((", b, ")[", i, "])"),
        },
        _ => cat5("((", b, ")[", i, "])"),
    }
}

} // verus!
