//! What lowered expressions on data are worth: fields, elements, structs, enums, slices,
//! closures, trait objects and memory.
use vstd::prelude::*;

use crate::bounds_laws;
use crate::context::{Cx, Out, St};
use crate::ctypes;
use crate::definitions;
use crate::frames;
use crate::hir::{
    EnumId, EnumInfo, FieldInfo, GlobalId, HExpr, HExprKind, HType, LocalId, StructId,
    VariantInfo,
};
use crate::lowered;
use crate::operator_laws;
use crate::pieces;
use crate::pieces::{Piece, Val, World};
use crate::places;
use crate::text;
use crate::value_laws;
use crate::values;

verus! {

/// The struct that a type is, or that its pointers lead to.
pub open spec fn leads_to_struct(t: HType, id: StructId) -> bool
    decreases t,
{
    match t {
        HType::Struct(s) => s == id,
        HType::Ref { inner, .. } | HType::Ptr { inner, .. } | HType::RawPtr { inner, .. }
        | HType::OwnPtr { inner, .. } | HType::Heap { inner } => leads_to_struct(*inner, id),
        _ => false,
    }
}

/// The type is a pointer of any kind.
pub open spec fn any_pointer(t: HType) -> bool {
    match t {
        HType::Ref { .. } | HType::Ptr { .. } | HType::RawPtr { .. } | HType::OwnPtr { .. }
        | HType::Heap { .. } => true,
        _ => false,
    }
}

proof fn lemma_behind(t: HType, id: StructId)
    requires
        leads_to_struct(t, id),
    ensures
        places::struct_behind(t) == Some(id),
    decreases t,
{
    match t {
        HType::Ref { inner, .. } | HType::Ptr { inner, .. } | HType::RawPtr { inner, .. }
        | HType::OwnPtr { inner, .. } | HType::Heap { inner } => lemma_behind(*inner, id),
        _ => {},
    }
}

/// A field is the member of that name of the struct, or of the struct that a pointer leads
/// to; as a place to assign to it is written without the parentheses.
pub proof fn law_field_selects_its_member(
    d: nat,
    cx: Cx,
    st: St,
    base: HExpr,
    field: usize,
    id: StructId,
    ty: HType,
    b: Piece,
)
    requires
        leads_to_struct(base.ty, id),
        b.text == lowered::expr_c(d, cx, st, base).text,
    ensures
        ({
            let e = value_laws::an_expr(HExprKind::Field { base: Box::new(base), field }, ty);
            let name = text::ident(cx.sym.the_struct(id).fields@[field as int].name@);
            let inner = if any_pointer(base.ty) { pieces::arrow(b, name) } else { pieces::dot(b,
                name) };
            &&& lowered::expr_c(d, cx, st, e).text == pieces::paren(inner).text
            &&& lowered::place_c(d, cx, st, e).text == inner.text
            &&& forall|w: World|
                {
                    let v = if any_pointer(base.ty) {
                        (w.cells)((b.value)(w), 0)
                    } else {
                        (b.value)(w)
                    };
                    #[trigger] (inner.value)(w) == pieces::member(v, name)
                }
        }),
{
    reveal(lowered::expr_c);
    reveal(lowered::place_c);
    lemma_behind(base.ty, id);
    reveal_strlit("->");
    reveal_strlit(".");
    reveal_strlit("(");
    reveal_strlit(")");
    let e = value_laws::an_expr(HExprKind::Field { base: Box::new(base), field }, ty);
    let name = text::ident(cx.sym.the_struct(id).fields@[field as int].name@);
    let inner = if any_pointer(base.ty) { pieces::arrow(b, name) } else { pieces::dot(b, name) };
    assert(lowered::place_c(d, cx, st, e).text =~= inner.text);
    assert(lowered::expr_c(d, cx, st, e).text =~= pieces::paren(inner).text);
}

/// An index that is checked against a bound.
pub open spec fn checked(i: Piece, bound: Piece, what: Seq<char>) -> Piece {
    pieces::call(
        pieces::a_name("maka_check_idx"@),
        seq![pieces::cast("maka_int"@, pieces::paren(i)), bound, pieces::constant("\""@ + what
            + "\""@, Val::Odd)],
    )
}

proof fn lemma_checked_text(i: Piece, bound: Piece, what: Seq<char>)
    ensures
        checked(i, bound, what).text == "maka_check_idx((maka_int)("@ + i.text + "), "@ + bound.text
            + ", \""@ + what + "\")"@,
{
    reveal_strlit("(");
    reveal_strlit(", ");
    reveal_strlit(")");
    reveal_strlit("maka_check_idx");
    reveal_strlit("maka_int");
    reveal_strlit("maka_check_idx((maka_int)(");
    reveal_strlit("), ");
    reveal_strlit(", \"");
    reveal_strlit("\")");
    reveal_strlit("\"");
    let a = seq![pieces::cast("maka_int"@, pieces::paren(i)), bound, pieces::constant("\""@ + what
        + "\""@, Val::Odd)];
    let t = pieces::texts_of(a);
    assert(t.drop_last().drop_last() =~= seq![t[0]]);
    assert(t.drop_last() =~= seq![t[0], t[1]]);
    reveal_with_fuel(text::joined, 4);
    assert(text::joined(t, ", "@) =~= t[0] + ", "@ + t[1] + ", "@ + t[2]);
    assert(checked(i, bound, what).text =~= "maka_check_idx((maka_int)("@ + i.text + "), "@
        + bound.text + ", \""@ + what + "\")"@);
}

proof fn lemma_element_words()
    ensures
        "(("@ == "("@ + "("@,
        ")[(maka_int)("@ == ")"@ + "["@ + "("@ + "maka_int"@ + ")"@ + "("@,
        ")])"@ == ")"@ + "]"@ + ")"@,
        ")[maka_check_idx((maka_int)("@ == ")"@ + "["@ + "maka_check_idx((maka_int)("@,
        "), (maka_int)"@ == "), "@ + "("@ + "maka_int"@ + ")"@,
        ", \"array idx\")])"@ == ", \""@ + "array idx"@ + "\")"@ + "]"@ + ")"@,
        ").ptr[(maka_int)("@ == ")"@ + "."@ + "ptr"@ + "["@ + "("@ + "maka_int"@ + ")"@ + "("@,
        ").ptr[maka_check_idx((maka_int)("@ == ")"@ + "."@ + "ptr"@ + "["@
            + "maka_check_idx((maka_int)("@,
        "), ("@ == "), "@ + "("@,
        ").len, \"slice idx\")])"@ == ")"@ + "."@ + "len"@ + ", \""@ + "slice idx"@ + "\")"@ + "]"@
            + ")"@,
        ").data[(maka_int)("@ == ")"@ + "."@ + "data"@ + "["@ + "("@ + "maka_int"@ + ")"@ + "("@,
        ").data[maka_check_idx((maka_int)("@ == ")"@ + "."@ + "data"@ + "["@
            + "maka_check_idx((maka_int)("@,
        ").len, \"vec idx\")])"@ == ")"@ + "."@ + "len"@ + ", \""@ + "vec idx"@ + "\")"@ + "]"@
            + ")"@,
        ")["@ == ")"@ + "["@,
        "])"@ == "]"@ + ")"@,
{
    reveal_strlit("((");
    reveal_strlit("(");
    reveal_strlit(")[(maka_int)(");
    reveal_strlit(")");
    reveal_strlit("[");
    reveal_strlit("maka_int");
    reveal_strlit(")])");
    reveal_strlit("]");
    reveal_strlit(")[maka_check_idx((maka_int)(");
    reveal_strlit("maka_check_idx((maka_int)(");
    reveal_strlit("), (maka_int)");
    reveal_strlit("), ");
    reveal_strlit(", \"array idx\")])");
    reveal_strlit(", \"");
    reveal_strlit("array idx");
    reveal_strlit("\")");
    reveal_strlit(").ptr[(maka_int)(");
    reveal_strlit(".");
    reveal_strlit("ptr");
    reveal_strlit(").ptr[maka_check_idx((maka_int)(");
    reveal_strlit("), (");
    reveal_strlit(").len, \"slice idx\")])");
    reveal_strlit("len");
    reveal_strlit("slice idx");
    reveal_strlit(").data[(maka_int)(");
    reveal_strlit("data");
    reveal_strlit(").data[maka_check_idx((maka_int)(");
    reveal_strlit(").len, \"vec idx\")])");
    reveal_strlit("vec idx");
    reveal_strlit(")[");
    reveal_strlit("])");
    assert("(("@ =~= "("@ + "("@);
    assert(")[(maka_int)("@ =~= ")"@ + "["@ + "("@ + "maka_int"@ + ")"@ + "("@);
    assert(")])"@ =~= ")"@ + "]"@ + ")"@);
    assert(")[maka_check_idx((maka_int)("@ =~= ")"@ + "["@ + "maka_check_idx((maka_int)("@);
    assert("), (maka_int)"@ =~= "), "@ + "("@ + "maka_int"@ + ")"@);
    assert(", \"array idx\")])"@ =~= ", \""@ + "array idx"@ + "\")"@ + "]"@ + ")"@);
    assert(").ptr[(maka_int)("@ =~= ")"@ + "."@ + "ptr"@ + "["@ + "("@ + "maka_int"@ + ")"@ + "("@);
    assert(").ptr[maka_check_idx((maka_int)("@ =~= ")"@ + "."@ + "ptr"@ + "["@
        + "maka_check_idx((maka_int)("@);
    assert("), ("@ =~= "), "@ + "("@);
    assert(").len, \"slice idx\")])"@ =~= ")"@ + "."@ + "len"@ + ", \""@ + "slice idx"@ + "\")"@
        + "]"@ + ")"@);
    assert(").data[(maka_int)("@ =~= ")"@ + "."@ + "data"@ + "["@ + "("@ + "maka_int"@ + ")"@
        + "("@);
    assert(").data[maka_check_idx((maka_int)("@ =~= ")"@ + "."@ + "data"@ + "["@
        + "maka_check_idx((maka_int)("@);
    assert(").len, \"vec idx\")])"@ =~= ")"@ + "."@ + "len"@ + ", \""@ + "vec idx"@ + "\")"@ + "]"@
        + ")"@);
    assert(")["@ =~= ")"@ + "["@);
    assert("])"@ =~= "]"@ + ")"@);
}


/// The text of an element of a fixed array.
pub proof fn lemma_array_element(b: Piece, i: Piece, n: i64, known: bool)
    ensures
        ({
            let bound = pieces::cast("maka_int"@, pieces::constant(text::decimal(n as int),
                Val::Num(n as int)));
            places::array_elem_text(b.text, i.text, n, known) == (if known {
                pieces::paren(pieces::indexed(pieces::paren(b), pieces::cast("maka_int"@,
                    pieces::paren(i))))
            } else {
                pieces::paren(pieces::indexed(pieces::paren(b), checked(i, bound, "array idx"@)))
            }).text
        }),
{
    broadcast use pieces::lemma_put_together;

    lemma_element_words();
    let bound = pieces::cast("maka_int"@, pieces::constant(text::decimal(n as int),
        Val::Num(n as int)));
    lemma_checked_text(i, bound, "array idx"@);
    if known {
        assert(places::array_elem_text(b.text, i.text, n, known) == pieces::paren(
            pieces::indexed(pieces::paren(b), pieces::cast("maka_int"@, pieces::paren(i))),
        ).text);
    } else {
        assert(places::array_elem_text(b.text, i.text, n, known) == pieces::paren(
            pieces::indexed(pieces::paren(b), checked(i, bound, "array idx"@)),
        ).text);
    }
}

/// The text of an element of a slice.
pub proof fn lemma_slice_element(b: Piece, i: Piece)
    ensures
        "(("@ + b.text + ").ptr[(maka_int)("@ + i.text + ")])"@ == pieces::paren(
            pieces::indexed(pieces::dot(pieces::paren(b), "ptr"@), pieces::cast("maka_int"@,
                pieces::paren(i))),
        ).text,
        "(("@ + b.text + ").ptr[maka_check_idx((maka_int)("@ + i.text + "), ("@ + b.text
            + ").len, \"slice idx\")])"@ == pieces::paren(
            pieces::indexed(pieces::dot(pieces::paren(b), "ptr"@), checked(i,
                pieces::dot(pieces::paren(b), "len"@), "slice idx"@)),
        ).text,
{
    broadcast use pieces::lemma_put_together;

    lemma_element_words();
    lemma_checked_text(i, pieces::dot(pieces::paren(b), "len"@), "slice idx"@);
    assert("(("@ + b.text + ").ptr[(maka_int)("@ + i.text + ")])"@ == pieces::paren(
        pieces::indexed(pieces::dot(pieces::paren(b), "ptr"@), pieces::cast("maka_int"@,
            pieces::paren(i))),
    ).text);
    assert("(("@ + b.text + ").ptr[maka_check_idx((maka_int)("@ + i.text + "), ("@ + b.text
        + ").len, \"slice idx\")])"@ == pieces::paren(
        pieces::indexed(pieces::dot(pieces::paren(b), "ptr"@), checked(i,
            pieces::dot(pieces::paren(b), "len"@), "slice idx"@)),
    ).text);
}

/// The text of an element of a vector.
pub proof fn lemma_vec_element(b: Piece, i: Piece)
    ensures
        "(("@ + b.text + ").data[(maka_int)("@ + i.text + ")])"@ == pieces::paren(
            pieces::indexed(pieces::dot(pieces::paren(b), "data"@), pieces::cast("maka_int"@,
                pieces::paren(i))),
        ).text,
        places::checked_vec_text(b.text, i.text) == pieces::paren(
            pieces::indexed(pieces::dot(pieces::paren(b), "data"@), checked(i,
                pieces::dot(pieces::paren(b), "len"@), "vec idx"@)),
        ).text,
{
    broadcast use pieces::lemma_put_together;

    lemma_element_words();
    lemma_checked_text(i, pieces::dot(pieces::paren(b), "len"@), "vec idx"@);
    assert("(("@ + b.text + ").data[(maka_int)("@ + i.text + ")])"@ == pieces::paren(
        pieces::indexed(pieces::dot(pieces::paren(b), "data"@), pieces::cast("maka_int"@,
            pieces::paren(i))),
    ).text);
    assert(places::checked_vec_text(b.text, i.text) == pieces::paren(
        pieces::indexed(pieces::dot(pieces::paren(b), "data"@), checked(i,
            pieces::dot(pieces::paren(b), "len"@), "vec idx"@)),
    ).text);
}

proof fn lemma_bare_element(b: Piece, i: Piece)
    ensures
        "(("@ + b.text + ")["@ + i.text + "])"@ == pieces::paren(pieces::indexed(pieces::paren(b),
            i)).text,
{
    broadcast use pieces::lemma_put_together;

    lemma_element_words();
    assert("(("@ + b.text + ")["@ + i.text + "])"@
        == pieces::paren(pieces::indexed(pieces::paren(b), i)).text);
}

/// An element is read at the value of the index. In a fixed array the index is checked
/// against the array's length, in a slice or a vector against its `len`, unless it is known
/// to be in bounds; the elements of a slice stand behind `ptr`, those of a vector behind
/// `data`, and those of an array behind the array itself or the pointer to it.
pub proof fn law_element_is_at_its_index(
    d: nat,
    cx: Cx,
    st: St,
    base: HExpr,
    idx: HExpr,
    ty: HType,
    b: Piece,
    i: Piece,
)
    requires
        b.text == lowered::expr_c(d, cx, st, base).text,
        i.text == lowered::expr_c(d, cx, lowered::expr_c(d, cx, st, base).st, idx).text,
    ensures
        ({
            let e = bounds_laws::element(base, idx, ty);
            let text = lowered::expr_c(d, cx, st, e).text;
            let free = pieces::cast("maka_int"@, pieces::paren(i));
            match base.ty {
                HType::Array { len, .. } => {
                    let bound = pieces::cast("maka_int"@,
                        pieces::constant(text::decimal(len as int), Val::Num(len as int)));
                    text == pieces::paren(pieces::indexed(pieces::paren(b), free)).text || text
                        == pieces::paren(
                        pieces::indexed(pieces::paren(b), checked(i, bound, "array idx"@)),
                    ).text
                },
                HType::Slice { .. } => text
                    == pieces::paren(pieces::indexed(pieces::dot(pieces::paren(b), "ptr"@),
                    free)).text || text
                    == pieces::paren(
                    pieces::indexed(
                        pieces::dot(pieces::paren(b), "ptr"@),
                        checked(i, pieces::dot(pieces::paren(b), "len"@), "slice idx"@),
                    ),
                ).text,
                HType::Vec { .. } => text
                    == pieces::paren(pieces::indexed(pieces::dot(pieces::paren(b), "data"@),
                    free)).text || text
                    == pieces::paren(
                    pieces::indexed(
                        pieces::dot(pieces::paren(b), "data"@),
                        checked(i, pieces::dot(pieces::paren(b), "len"@), "vec idx"@),
                    ),
                ).text,
                HType::Heap { inner } => match *inner {
                    HType::Vec { .. } => text == pieces::paren(
                        pieces::indexed(
                            pieces::dot(pieces::paren(b), "data"@),
                            checked(i, pieces::dot(pieces::paren(b), "len"@), "vec idx"@),
                        ),
                    ).text,
                    HType::Array { len, .. } => {
                        let bound = pieces::cast(
                            "maka_int"@,
                            pieces::constant(text::decimal(len as int), Val::Num(len as int)),
                        );
                        text == pieces::paren(pieces::indexed(pieces::paren(b), free)).text || text
                            == pieces::paren(
                            pieces::indexed(pieces::paren(b), checked(i, bound, "array idx"@)),
                        ).text
                    },
                    _ => text == pieces::paren(pieces::indexed(pieces::paren(b), i)).text,
                },
                HType::Ref { inner, .. } | HType::Ptr { inner, .. } => match *inner {
                    HType::Array { len, .. } => {
                        let bound = pieces::cast(
                            "maka_int"@,
                            pieces::constant(text::decimal(len as int), Val::Num(len as int)),
                        );
                        text == pieces::paren(pieces::indexed(pieces::paren(b), free)).text || text
                            == pieces::paren(
                            pieces::indexed(pieces::paren(b), checked(i, bound, "array idx"@)),
                        ).text
                    },
                    _ => text == pieces::paren(pieces::indexed(pieces::paren(b), i)).text,
                },
                _ => text == pieces::paren(pieces::indexed(pieces::paren(b), i)).text,
            }
        }),
        lowered::place_c(d, cx, st, bounds_laws::element(base, idx, ty)) == lowered::expr_c(d, cx,
            st, bounds_laws::element(base, idx, ty)),
        lowered::expr_c(d, cx, st, bounds_laws::element(base, idx, ty)).st == lowered::expr_c(
            d,
            cx,
            lowered::expr_c(d, cx, st, base).st,
            idx,
        ).st,
{
    reveal(lowered::expr_c);
    reveal(lowered::place_c);
    let e = bounds_laws::element(base, idx, ty);
    let text = lowered::expr_c(d, cx, st, e).text;
    assert(text == places::index_text(cx.bounded, base, idx, b.text, i.text));
    let n = bounds_laws::indexed_len(base.ty);
    lemma_array_element(b, i, n, places::const_bounded(cx.bounded, n, idx));
    lemma_slice_element(b, i);
    lemma_vec_element(b, i);
    lemma_bare_element(b, i);
}

/// `p!` and `*p` are what the pointer leads to; a pointer to a fixed array is the array.
pub proof fn law_pointers_lead_to_their_target(
    d: nat,
    cx: Cx,
    st: St,
    x: HExpr,
    proven: bool,
    ty: HType,
    p: Piece,
)
    requires
        p.text == lowered::expr_c(d, cx, st, x).text,
    ensures
        ({
            let unwrapped = value_laws::an_expr(
                HExprKind::Unwrap { expr: Box::new(x), skip_check: proven },
                ty,
            );
            let read = value_laws::an_expr(HExprKind::DerefRef(Box::new(x)), ty);
            let whole = pieces::paren(pieces::target(pieces::paren(p)));
            &&& lowered::expr_c(d, cx, st, read).text == whole.text
            &&& match x.ty {
                HType::Ref { inner, .. } | HType::Ptr { inner, .. } | HType::RawPtr { inner, .. }
                | HType::OwnPtr { inner, .. } | HType::Heap { inner } => lowered::expr_c(
                    d,
                    cx,
                    st,
                    unwrapped,
                ).text == (if *inner is Array { p.text } else { whole.text }),
                _ => lowered::expr_c(d, cx, st, unwrapped).text == whole.text,
            }
            &&& forall|w: World| #[trigger] (whole.value)(w) == (w.cells)((p.value)(w), 0)
        }),
{
    reveal(lowered::expr_c);
    reveal_strlit("(*(");
    reveal_strlit("))");
    reveal_strlit("(");
    reveal_strlit(")");
    reveal_strlit("*");
    reveal_strlit("NULL");
    reveal_strlit("MAKA_UNIT");
    reveal_strlit("0");
    let whole = pieces::paren(pieces::target(pieces::paren(p)));
    assert("(*("@ + p.text + "))"@ =~= whole.text);
}

/// The address of a place is written with `&`; an array is its own address, and so is a
/// trait object.
pub proof fn law_address_of_a_place(
    d: nat,
    cx: Cx,
    st: St,
    place: HExpr,
    mutable: bool,
    ty: HType,
)
    ensures
        ({
            let e = value_laws::an_expr(HExprKind::AddrOfRef { mutable, place: Box::new(place) },
                ty);
            let p = lowered::place_c(d, cx, st, place).text;
            lowered::expr_c(d, cx, st, e).text == (match place.ty {
                HType::Dyn { .. } => p,
                HType::Array { .. } => pieces::paren(pieces::constant(p, Val::Odd)).text,
                _ => pieces::paren(pieces::constant("&"@ + pieces::paren(pieces::constant(p,
                    Val::Odd)).text, Val::Odd)).text,
            })
        }),
{
    reveal(lowered::expr_c);
    reveal(lowered::place_c);
    reveal_strlit("(");
    reveal_strlit(")");
    reveal_strlit("(&(");
    reveal_strlit("))");
    reveal_strlit("&");
    let e = value_laws::an_expr(HExprKind::AddrOfRef { mutable, place: Box::new(place) }, ty);
    let p = lowered::place_c(d, cx, st, place).text;
    assert("(&("@ + p + "))"@ =~= pieces::paren(pieces::constant("&"@
        + pieces::paren(pieces::constant(p, Val::Odd)).text, Val::Odd)).text);
    assert("("@ + p + ")"@ =~= pieces::paren(pieces::constant(p, Val::Odd)).text);
}

/// The tag of a value: the value itself where no variant carries values, else its member.
pub proof fn law_tag_of_a_value(d: nat, cx: Cx, st: St, x: HExpr, ty: HType, p: Piece)
    requires
        x.ty is Enum,
        p.text == lowered::expr_c(d, cx, st, x).text,
    ensures
        ({
            let e = value_laws::an_expr(HExprKind::EnumTag(Box::new(x)), ty);
            let whole = pieces::cast(
                "maka_int"@,
                if value_laws::carries_values(cx.sym,
                    x.ty) { pieces::paren(pieces::dot(pieces::paren(p),
                    "tag"@)) } else { pieces::paren(p) },
            );
            &&& lowered::expr_c(d, cx, st, e).text == whole.text
            &&& forall|w: World| #[trigger]
                (whole.value)(w) == (if value_laws::carries_values(cx.sym, x.ty) {
                    pieces::member((p.value)(w), "tag"@)
                } else {
                    (p.value)(w)
                })
        }),
{
    reveal(lowered::expr_c);
    reveal_strlit("(maka_int)(");
    reveal_strlit(")");
    reveal_strlit("(maka_int)((");
    reveal_strlit(").tag)");
    reveal_strlit("(");
    reveal_strlit(".");
    reveal_strlit("maka_int");
    reveal_strlit("tag");
    let e = value_laws::an_expr(HExprKind::EnumTag(Box::new(x)), ty);
    let whole = pieces::cast(
        "maka_int"@,
        if value_laws::carries_values(cx.sym, x.ty) { pieces::paren(pieces::dot(pieces::paren(p),
            "tag"@)) } else { pieces::paren(p) },
    );
    assert(lowered::expr_c(d, cx, st, e).text =~= whole.text);
}

/// The length of an array is that of its type, that of a slice or a vector its `len`.
pub proof fn law_length_of_a_sequence(d: nat, cx: Cx, st: St, x: HExpr, ty: HType, p: Piece)
    requires
        p.text == lowered::expr_c(d, cx, st, x).text,
    ensures
        ({
            let text = lowered::expr_c(d, cx, st,
                value_laws::an_expr(HExprKind::SliceLen(Box::new(x)), ty)).text;
            let behind = match x.ty {
                HType::Heap { inner } | HType::Ref { inner, .. } | HType::Ptr { inner,
                    .. } => *inner,
                _ => x.ty,
            };
            &&& x.ty is Slice || behind is Vec ==> text == pieces::dot(pieces::paren(p),
                "len"@).text
            &&& behind matches HType::Array { len, .. } ==> text::begins(text, "(maka_int)"@)
                && operator_laws::number_value(text.skip(10)) == len
        }),
{
    reveal(lowered::expr_c);
    reveal_strlit("(");
    reveal_strlit(").len");
    reveal_strlit("(maka_int)");
    reveal_strlit("0");
    reveal_strlit(")");
    reveal_strlit(".");
    reveal_strlit("len");
    let text = lowered::expr_c(d, cx, st, value_laws::an_expr(HExprKind::SliceLen(Box::new(x)),
        ty)).text;
    assert("("@ + p.text + ").len"@ =~= pieces::dot(pieces::paren(p), "len"@).text);
    let n = bounds_laws::indexed_len(x.ty);
    operator_laws::law_decimal_reads_back(n as int);
    let t = "(maka_int)"@ + text::decimal(n as int);
    assert(t.skip(10) =~= text::decimal(n as int));
    assert(t.take(10) =~= "(maka_int)"@);
}

/// What marks a move or a discarded write adds nothing to the text.
pub proof fn law_marks_add_nothing(d: nat, cx: Cx, st: St, x: HExpr, ty: HType)
    ensures
        lowered::expr_c(d, cx, st, value_laws::an_expr(HExprKind::Transfer(Box::new(x)), ty))
            == lowered::expr_c(d, cx, st, x),
        lowered::expr_c(d, cx, st, value_laws::an_expr(HExprKind::DropWrite(Box::new(x)), ty))
            == lowered::expr_c(d, cx, st, x),
{
    reveal(lowered::expr_c);
}

/// A local is its C name: in an expansion the tagged one, else its own name with its number,
/// through a pointer where it is an alias. A global is its C name.
pub proof fn law_names_of_variables(d: nat, cx: Cx, st: St, id: LocalId, g: GlobalId, ty: HType)
    ensures
        ({
            let text = lowered::expr_c(d, cx, st, value_laws::an_expr(HExprKind::Local(id),
                ty)).text;
            let own_name = text::ident(cx.f.locals@[id.0 as int].name@) + "_"@
                + text::decimal(id.0 as int);
            match cx.tag {
                Some(t) => text == "_il_"@ + text::decimal(id.0 as int) + "_"@ + t,
                None => if st.aliased.contains(id.0) {
                    text == pieces::paren(pieces::target(pieces::constant(own_name, Val::Odd))).text
                } else {
                    text == own_name
                },
            }
        }),
        lowered::expr_c(d, cx, st, value_laws::an_expr(HExprKind::GlobalRef(g), ty)).text
            == cx.sym.globals@[g.0 as int].c_name@,
        lowered::place_c(d, cx, st, value_laws::an_expr(HExprKind::Local(id), ty))
            == lowered::expr_c(
            d,
            cx,
            st,
            value_laws::an_expr(HExprKind::Local(id), ty),
        ),
        lowered::place_c(d, cx, st, value_laws::an_expr(HExprKind::GlobalRef(g), ty))
            == lowered::expr_c(
            d,
            cx,
            st,
            value_laws::an_expr(HExprKind::GlobalRef(g), ty),
        ),
{
    reveal(lowered::expr_c);
    reveal(lowered::place_c);
    reveal_strlit("(*");
    reveal_strlit(")");
    reveal_strlit("(");
    reveal_strlit("*");
    let own_name = ctypes::local_c(id, cx.f.locals@[id.0 as int].name@);
    assert("(*"@ + own_name + ")"@ =~= pieces::paren(pieces::target(pieces::constant(own_name,
        Val::Odd))).text);
}

/// Which of the values of a literal belongs to a field: the first that names it.
pub open spec fn given_for(fields: Seq<(usize, HExpr)>, i: int, p: int) -> bool {
    &&& 0 <= p < fields.len()
    &&& fields[p].0 == i
    &&& forall|q: int| 0 <= q < p ==> (#[trigger] fields[q]).0 != i
}

proof fn lemma_given(fields: Seq<(usize, HExpr)>, i: int, p: int, from: nat)
    requires
        given_for(fields, i, p),
        from <= p,
    ensures
        frames::value_from(fields, i, from) == Some(p),
    decreases p - from,
{
    if from < p {
        assert(fields[from as int].0 != i);
        lemma_given(fields, i, p, from + 1);
    }
}

proof fn lemma_not_given(fields: Seq<(usize, HExpr)>, i: int, from: nat)
    requires
        forall|q: int| from <= q < fields.len() ==> (#[trigger] fields[q]).0 != i,
    ensures
        frames::value_from(fields, i, from) is None,
    decreases fields.len() - from,
{
    if from < fields.len() {
        assert(fields[from as int].0 != i);
        lemma_not_given(fields, i, from + 1);
    }
}

/// Each field is initialized by its name, with the value that the literal gives for it, or
/// with the default where it gives none; in the order of the fields.
pub proof fn law_initializers_by_field(
    d: nat,
    cx: Cx,
    st: St,
    infos: Seq<FieldInfo>,
    fields: Vec<(usize, HExpr)>,
    dflt: Seq<char>,
    n: nat,
    i: int,
)
    requires
        0 <= i < n,
    ensures
        ({
            let all = lowered::inits_c(d, cx, st, infos, fields, dflt, n);
            let before = lowered::inits_c(d, cx, st, infos, fields, dflt, i as nat);
            let head = "."@ + text::ident(infos[i].name@) + " = "@;
            &&& all.texts.len() == n
            &&& forall|p: int| #[trigger]
                given_for(fields@, i, p) ==> all.texts[i] == head + lowered::expr_c(
                    d,
                    cx,
                    before.st,
                    fields@[p].1,
                ).text
            &&& (forall|q: int| 0 <= q < fields@.len() ==> (#[trigger] fields@[q]).0 != i)
                ==> all.texts[i] == head + dflt
        }),
    decreases n,
{
    reveal(lowered::expr_c);
    if i < n - 1 {
        law_initializers_by_field(d, cx, st, infos, fields, dflt, (n - 1) as nat, i);
    } else {
        if n > 1 {
            law_initializers_by_field(d, cx, st, infos, fields, dflt, (n - 1) as nat, n - 2);
        }
        let before = lowered::inits_c(d, cx, st, infos, fields, dflt, (n - 1) as nat);
        assert(lowered::inits_c(d, cx, st, infos, fields, dflt, 0).texts.len() == 0);
        assert(before.texts.len() == n - 1);
        let o = match frames::value_from(fields@, n - 1, 0) {
            Some(p) => lowered::expr_c(d, cx, before.st, fields@[p].1),
            None => Out { text: dflt, st: before.st },
        };
        assert(lowered::inits_c(d, cx, st, infos, fields, dflt, n).texts == before.texts.push(
            "."@ + text::ident(infos[n - 1].name@) + " = "@ + o.text,
        ));
        assert forall|p: int| #[trigger] given_for(fields@, i, p) implies frames::value_from(
            fields@,
            i,
            0,
        ) == Some(p) by {
            lemma_given(fields@, i, p, 0);
        }
        if forall|q: int| 0 <= q < fields@.len() ==> (#[trigger] fields@[q]).0 != i {
            lemma_not_given(fields@, i, 0);
        }
    }
}

/// A struct literal is a struct of that type with its initializers; fields that it does not
/// give are null.
pub proof fn law_struct_literal(
    d: nat,
    cx: Cx,
    st: St,
    id: StructId,
    fields: Vec<(usize, HExpr)>,
    ty: HType,
)
    ensures
        ({
            let e = value_laws::an_expr(HExprKind::Struct { id, fields }, ty);
            let s = cx.sym.structs@[id.0 as int];
            let parts = lowered::inits_c(d, cx, st, s.fields@, fields, "NULL"@,
                s.fields@.len()).texts;
            lowered::expr_c(d, cx, st, e).text == pieces::paren(
                pieces::constant("("@ + text::ident(s.name@) + "){ "@ + text::joined(parts, ", "@)
                    + " }"@, Val::Odd),
            ).text
        }),
{
    reveal(lowered::expr_c);
    reveal_strlit("((");
    reveal_strlit("(");
    reveal_strlit("){ ");
    reveal_strlit(" })");
    reveal_strlit(" }");
    reveal_strlit(")");
    let e = value_laws::an_expr(HExprKind::Struct { id, fields }, ty);
    let s = cx.sym.structs@[id.0 as int];
    let parts = lowered::inits_c(d, cx, st, s.fields@, fields, "NULL"@, s.fields@.len()).texts;
    assert(lowered::expr_c(d, cx, st, e).text =~= pieces::paren(
        pieces::constant("("@ + text::ident(s.name@) + "){ "@ + text::joined(parts, ", "@) + " }"@,
            Val::Odd),
    ).text);
}

proof fn lemma_carries(e: EnumInfo)
    ensures
        value_laws::some_values(e) == !e.simple(),
{
    if !e.simple() {
        let i = choose|i: int|
            0 <= i < e.variants@.len() && (#[trigger] e.variants@[i]).fields@.len() != 0;
        assert(e.variants@[i].fields@.len() > 0);
    }
}

/// A variant without values: the constant that the enum's declaration gives its tag, or a
/// struct with that tag.
pub proof fn law_variant_has_its_tag(
    d: nat,
    cx: Cx,
    st: St,
    id: EnumId,
    variant: usize,
    ty: HType,
)
    ensures
        ({
            let e = cx.sym.enums@[id.0 as int];
            let v = e.variants@[variant as int];
            let text = lowered::expr_c(d, cx, st, value_laws::an_expr(HExprKind::EnumVariant(id,
                variant), ty)).text;
            if value_laws::carries_values(cx.sym, HType::Enum(id)) {
                text == pieces::paren(
                    pieces::record(
                        text::ident(e.name@),
                        seq!["tag"@],
                        seq![pieces::constant(text::decimal(v.tag as int), Val::Num(v.tag as int))],
                    ),
                ).text
            } else {
                text::has_part(definitions::variant_decl(e, v), " "@ + text + " = "@
                    + text::decimal(v.tag as int) + ";"@)
            }
        }),
{
    reveal(lowered::expr_c);
    reveal_strlit("__");
    reveal_strlit("((");
    reveal_strlit("){ .tag = ");
    reveal_strlit(" })");
    reveal_strlit("(");
    reveal_strlit(")");
    reveal_strlit("){ ");
    reveal_strlit(", ");
    reveal_strlit(" }");
    reveal_strlit(".");
    reveal_strlit(" = ");
    reveal_strlit("tag");
    let e = cx.sym.enums@[id.0 as int];
    let v = e.variants@[variant as int];
    let text = lowered::expr_c(d, cx, st, value_laws::an_expr(HExprKind::EnumVariant(id, variant),
        ty)).text;
    lemma_carries(e);
    if value_laws::carries_values(cx.sym, HType::Enum(id)) {
        let r = pieces::record(
            text::ident(e.name@),
            seq!["tag"@],
            seq![pieces::constant(text::decimal(v.tag as int), Val::Num(v.tag as int))],
        );
        let init = "."@ + "tag"@ + " = "@ + text::decimal(v.tag as int);
        assert(pieces::initializers(
            seq!["tag"@],
            seq![pieces::constant(text::decimal(v.tag as int), Val::Num(v.tag as int))],
        ) =~= seq![init]);
        assert(text =~= pieces::paren(r).text);
    } else {
        reveal_strlit("");
        reveal_strlit("static const ");
        reveal_strlit(" ");
        reveal_strlit("__");
        reveal_strlit(" = ");
        reveal_strlit(";");
        reveal_strlit("#define ");
        reveal_strlit("_TAG ");
        let en = text::ident(e.name@);
        let part = " "@ + text + " = "@ + text::decimal(v.tag as int) + ";"@;
        let first = "static const "@ + en;
        assert(definitions::variant_decl(e, v) =~= (first + part) + "\n"@);
        text::lemma_part_last(first, part);
        text::lemma_part_kept(first + part, "\n"@, part);
    }
}

proof fn lemma_variant_words()
    ensures
        "(("@ == "("@ + "("@,
        "){ .tag = "@ == "){ "@ + "."@ + "tag"@ + " = "@,
        ", .payload."@ == ", "@ + "."@ + "payload."@,
        " = { "@ == " = "@ + "{ "@,
        " } })"@ == " }"@ + " }"@ + ")"@,
{
    reveal_strlit("((");
    reveal_strlit("(");
    reveal_strlit("){ .tag = ");
    reveal_strlit("){ ");
    reveal_strlit(".");
    reveal_strlit("tag");
    reveal_strlit(" = ");
    reveal_strlit(", .payload.");
    reveal_strlit(", ");
    reveal_strlit("payload.");
    reveal_strlit(" = { ");
    reveal_strlit("{ ");
    reveal_strlit(" } })");
    reveal_strlit(" }");
    reveal_strlit(")");
    assert("(("@ =~= "("@ + "("@);
    assert("){ .tag = "@ =~= "){ "@ + "."@ + "tag"@ + " = "@);
    assert(", .payload."@ =~= ", "@ + "."@ + "payload."@);
    assert(" = { "@ =~= " = "@ + "{ "@);
    assert(" } })"@ =~= " }"@ + " }"@ + ")"@);
}


proof fn lemma_two_members(t: Seq<char>, a: Seq<char>, x: Piece, b: Seq<char>, y: Piece)
    ensures
        pieces::record(t, seq![a, b], seq![x, y]).text == "("@ + t + "){ "@ + ("."@ + a + " = "@
            + x.text
            + ", "@ + ("."@ + b + " = "@ + y.text)) + " }"@,
{
    let first = "."@ + a + " = "@ + x.text;
    let second = "."@ + b + " = "@ + y.text;
    assert(pieces::initializers(seq![a, b], seq![x, y]) =~= seq![first, second]);
    assert(seq![first, second].drop_last() =~= seq![first]);
    reveal_with_fuel(text::joined, 3);
}

proof fn lemma_variant_text(e: EnumInfo, v: VariantInfo, parts: Seq<Seq<char>>)
    requires
        v.fields@.len() > 0,
    ensures
        values::payload_text(e, v, parts) == pieces::paren(
            pieces::record(
                text::ident(e.name@),
                seq!["tag"@, "payload."@ + text::ident(v.name@)],
                seq![
                    pieces::constant(text::decimal(v.tag as int), Val::Num(v.tag as int)),
                    pieces::constant("{ "@ + text::joined(parts, ", "@) + " }"@, Val::Odd),
                ],
            ),
        ).text,
{
    lemma_variant_words();
    let held = "{ "@ + text::joined(parts, ", "@) + " }"@;
    let x = pieces::constant(text::decimal(v.tag as int), Val::Num(v.tag as int));
    let y = pieces::constant(held, Val::Odd);
    let b = "payload."@ + text::ident(v.name@);
    lemma_two_members(text::ident(e.name@), "tag"@, x, b, y);
    assert(values::payload_text(e, v, parts) =~= "("@ + ("("@ + text::ident(e.name@) + "){ "@
        + ("."@ + "tag"@
        + " = "@ + x.text + ", "@ + ("."@ + b + " = "@ + held)) + " }"@) + ")"@);
}

/// A variant with values: a struct with the tag and, in the member of the variant, the
/// values by field.
pub proof fn law_variant_holds_its_values(
    d: nat,
    cx: Cx,
    st: St,
    enum_id: EnumId,
    variant: usize,
    fields: Vec<(usize, HExpr)>,
    ty: HType,
)
    requires
        cx.sym.enums@[enum_id.0 as int].variants@[variant as int].fields@.len() > 0,
    ensures
        ({
            let e = cx.sym.enums@[enum_id.0 as int];
            let v = e.variants@[variant as int];
            let parts = lowered::inits_c(d, cx, st, v.fields@, fields, "0"@, v.fields@.len()).texts;
            let x = value_laws::an_expr(HExprKind::VariantCtor { enum_id, variant, fields }, ty);
            let held = "{ "@ + text::joined(parts, ", "@) + " }"@;
            lowered::expr_c(d, cx, st, x).text == pieces::paren(
                pieces::record(
                    text::ident(e.name@),
                    seq!["tag"@, "payload."@ + text::ident(v.name@)],
                    seq![
                        pieces::constant(text::decimal(v.tag as int), Val::Num(v.tag as int)),
                        pieces::constant(held, Val::Odd),
                    ],
                ),
            ).text
        }),
{
    reveal(lowered::expr_c);
    let e = cx.sym.enums@[enum_id.0 as int];
    let v = e.variants@[variant as int];
    let parts = lowered::inits_c(d, cx, st, v.fields@, fields, "0"@, v.fields@.len()).texts;
    let x = value_laws::an_expr(HExprKind::VariantCtor { enum_id, variant, fields }, ty);
    let held = "{ "@ + text::joined(parts, ", "@) + " }"@;
    lemma_variant_text(e, v, parts);
}

proof fn lemma_view_words()
    ensures
        "((Slice_"@ == "("@ + "("@ + "Slice_"@,
        "){ .ptr = (("@ == "){ "@ + "."@ + "ptr"@ + " = "@ + "("@ + "("@,
        ")), .len = "@ == ")"@ + ")"@ + ", "@ + "."@ + "len"@ + " = "@,
        " })"@ == " }"@ + ")"@,
{
    reveal_strlit("((Slice_");
    reveal_strlit("(");
    reveal_strlit("Slice_");
    reveal_strlit("){ .ptr = ((");
    reveal_strlit("){ ");
    reveal_strlit(".");
    reveal_strlit("ptr");
    reveal_strlit(" = ");
    reveal_strlit(")), .len = ");
    reveal_strlit(")");
    reveal_strlit(", ");
    reveal_strlit("len");
    reveal_strlit(" })");
    reveal_strlit(" }");
    assert("((Slice_"@ =~= "("@ + "("@ + "Slice_"@);
    assert("){ .ptr = (("@ =~= "){ "@ + "."@ + "ptr"@ + " = "@ + "("@ + "("@);
    assert(")), .len = "@ =~= ")"@ + ")"@ + ", "@ + "."@ + "len"@ + " = "@);
    assert(" })"@ =~= " }"@ + ")"@);
}


proof fn lemma_view_text(key: Seq<char>, b: Piece, len: i64)
    ensures
        "((Slice_"@ + key + "){ .ptr = (("@ + b.text + ")), .len = "@ + text::decimal(len as int)
            + " })"@
            == pieces::paren(
            pieces::record(
                "Slice_"@ + key,
                seq!["ptr"@, "len"@],
                seq![pieces::paren(pieces::paren(b)), pieces::constant(text::decimal(len as int),
                    Val::Num(len as int))],
            ),
        ).text,
{
    broadcast use pieces::lemma_put_together;

    lemma_view_words();
    let x = pieces::paren(pieces::paren(b));
    let y = pieces::constant(text::decimal(len as int), Val::Num(len as int));
    lemma_two_members("Slice_"@ + key, "ptr"@, x, "len"@, y);
    assert("((Slice_"@ + key + "){ .ptr = (("@ + b.text + ")), .len = "@ + text::decimal(len as int)
        + " })"@ == "("@ + ("("@ + ("Slice_"@ + key) + "){ "@ + ("."@ + "ptr"@ + " = "@ + x.text
        + ", "@ + ("."@ + "len"@ + " = "@ + y.text)) + " }"@) + ")"@);
}

/// A fixed array seen as a slice: a pointer to it and its length.
pub proof fn law_slice_of_an_array(
    d: nat,
    cx: Cx,
    st: St,
    base: HExpr,
    len: i64,
    elem: HType,
    mutable: bool,
    b: Piece,
)
    requires
        b.text == lowered::expr_c(d, cx, st, base).text,
    ensures
        ({
            let e = value_laws::an_expr(
                HExprKind::ArrayToSlice { base: Box::new(base), len },
                HType::Slice { elem: Box::new(elem), mutable },
            );
            let whole = pieces::paren(
                pieces::record(
                    "Slice_"@ + ctypes::ty_key(cx.sym, elem),
                    seq!["ptr"@, "len"@],
                    seq![
                        pieces::paren(pieces::paren(b)),
                        pieces::constant(text::decimal(len as int), Val::Num(len as int)),
                    ],
                ),
            );
            &&& lowered::expr_c(d, cx, st, e).text == whole.text
            &&& forall|w: World| #[trigger]
                (whole.value)(w) == Val::Rec(
                    Map::empty().insert("ptr"@, (b.value)(w)).insert("len"@, Val::Num(len as int)),
                )
        }),
{
    reveal(lowered::expr_c);
    let e = value_laws::an_expr(
        HExprKind::ArrayToSlice { base: Box::new(base), len },
        HType::Slice { elem: Box::new(elem), mutable },
    );
    let names = seq!["ptr"@, "len"@];
    let vals = seq![pieces::paren(pieces::paren(b)), pieces::constant(text::decimal(len as int),
        Val::Num(len as int))];
    let whole = pieces::paren(pieces::record("Slice_"@ + ctypes::ty_key(cx.sym, elem), names,
        vals));
    lemma_view_text(ctypes::ty_key(cx.sym, elem), b, len);
    reveal_with_fuel(pieces::members, 3);
}

} // verus!
