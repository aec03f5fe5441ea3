//! What statements do besides setting their place: what they release, what they clear, and by
//! how much a loop's step moves its counter.
use vstd::prelude::*;

use crate::analysis;
use crate::context::{Cx, St};
use crate::ctypes;
use crate::dispatch;
use crate::drops;
use crate::frames;
use crate::hir::{
    FuncSig, HAssignOp, HBinOp, HExpr, HExprKind, HFunc, HStmt, HType, LocalId, SymTab,
};
use crate::lowered;
use crate::module;
use crate::operators;
use crate::pieces;
use crate::statement_laws;
use crate::text;
use crate::text::line;
use crate::validity;
use crate::value_laws;

verus! {

/// The value of an expression made of literals, sums and differences of them and one local, where
/// that local holds `c`.
pub open spec fn worth(e: HExpr, local: u32, c: int) -> Option<int>
    decreases e,
{
    match e.kind {
        HExprKind::LitInt(n) => Some(n as int),
        HExprKind::Local(id) => if id.0 == local { Some(c) } else { None },
        HExprKind::Bin { op, lhs, rhs } => match (worth(*lhs, local, c), worth(*rhs, local, c)) {
            (Some(a), Some(b)) => match op {
                HBinOp::Add => Some(a + b),
                HBinOp::Sub => Some(a - b),
                _ => None,
            },
            _ => None,
        },
        _ => None,
    }
}

/// What the local holds after a statement that assigns to it, where it held `c`.
pub open spec fn after(step: HStmt, local: u32, c: int) -> Option<int> {
    match step {
        HStmt::Assign { op, place, value } => if place.kind == HExprKind::Local(LocalId(local)) {
            match worth(value, local, c) {
                Some(v) => match op {
                    HAssignOp::Assign => Some(v),
                    HAssignOp::Add => Some(c + v),
                    HAssignOp::Sub => Some(c - v),
                    _ => None,
                },
                None => None,
            }
        } else {
            None
        },
        _ => None,
    }
}

/// A loop's step that is known to move the counter forward moves it by that much, whatever the
/// counter holds.
pub proof fn law_step_moves_the_counter(step: HStmt, counter: u32, c: int)
    ensures
        analysis::rise(step, counter) > 0 ==> after(step, counter, c) == Some(c
            + analysis::rise(step, counter)),
{
    if analysis::rise(step, counter) > 0 {
        if let HStmt::Assign { op, place, value } = step {
            if let HExprKind::Bin { op: sum, lhs, rhs } = value.kind {
                reveal_with_fuel(worth, 3);
                assert(worth(*lhs, counter, c) is Some && worth(*rhs, counter, c) is Some);
            }
        }
    }
}

/// A step that adds a literal to the counter is known, in each of its forms.
pub proof fn law_steps_are_known(counter: u32, n: i64, ty: HType)
    ensures
        ({
            let place = value_laws::an_expr(HExprKind::Local(LocalId(counter)), ty);
            let by = value_laws::an_expr(HExprKind::LitInt(n), ty);
            let sum = |a: HExpr, b: HExpr|
                value_laws::an_expr(
                    HExprKind::Bin { op: HBinOp::Add, lhs: Box::new(a), rhs: Box::new(b) },
                    ty,
                );
            &&& analysis::rise(HStmt::Assign { op: HAssignOp::Add, place, value: by }, counter) == n
            &&& analysis::rise(
                HStmt::Assign { op: HAssignOp::Assign, place, value: sum(place, by) },
                counter,
            ) == n
            &&& analysis::rise(
                HStmt::Assign { op: HAssignOp::Assign, place, value: sum(by, place) },
                counter,
            ) == n
        }),
{
}

/// Only an owning place that is overwritten as a whole releases what it held: an assignment of
/// another kind, or to a place that owns nothing or belongs to no local, sets its place and
/// clears the source of a move, and does no more.
pub proof fn law_other_assignments_release_nothing(
    d: nat,
    cx: Cx,
    st: St,
    op: HAssignOp,
    place: HExpr,
    value: HExpr,
)
    requires
        !validity::through_pointer(cx.f, place),
        op != HAssignOp::Assign || !drops::ty_owns(cx.sym, cx.owns, place.ty)
            || analysis::root_of(place) is None,
    ensures
        ({
            let l = lowered::place_c(d, cx, st, place);
            let r = lowered::expr_c(d, cx, l.st, value);
            lowered::assign_c(d, cx, st, HStmt::Assign { op, place, value }).text == text::line_c(
                cx.ind,
                l.text + (" "@ + operators::assign_text(op) + " "@) + r.text + ";"@,
            ) + lowered::move_out_c(d, cx, r.st, value).text
        }),
{
    reveal(lowered::assign_c);
    reveal(lowered::place_c);
    reveal(lowered::expr_c);
    reveal(lowered::move_out_c);
    reveal_strlit("");
    let l = lowered::place_c(d, cx, st, place);
    let r = lowered::expr_c(d, cx, l.st, value);
    let o = operators::assign_text(op);
    assert(l.text + " "@ + o + " "@ + r.text + ";"@ =~= l.text + (" "@ + o + " "@) + r.text + ";"@);
    let line = text::line_c(cx.ind, l.text + " "@ + o + " "@ + r.text + ";"@);
    assert(""@ + line =~= line);
}

/// A return gives the value, clears the source of a move and releases the locals that the
/// function still holds, in this order, and nothing else.
pub proof fn law_return_does_no_more(
    d: nat,
    cx: Cx,
    st: St,
    value: Option<HExpr>,
    heap_drops: Vec<LocalId>,
)
    ensures
        ({
            let text = lowered::stmt_c(d, cx, st, HStmt::Return { value, heap_drops }).text;
            let n = heap_drops@.len();
            match value {
                Some(e) => if e.ty is Unit {
                    text == text::line_c(cx.ind, "(void)("@ + lowered::expr_c(d, cx, st, e).text
                        + ");"@)
                        + frames::return_drops_text(cx.sym, cx.owns, cx.f, cx.ind, heap_drops@, n)
                            + text::line_c(
                        cx.ind,
                        "return;"@,
                    )
                } else {
                    let inner = cx.nested();
                    let v = lowered::expr_c(d, inner, st, e);
                    text == text::line_c(cx.ind, "{"@) + text::line_c(
                        inner.ind,
                        ctypes::decl_c(cx.sym, e.ty, "__ret"@) + " = "@ + v.text + ";"@,
                    ) + (lowered::move_out_c(d, inner, v.st, e).text + frames::return_drops_text(
                        cx.sym,
                        cx.owns,
                        cx.f,
                        inner.ind,
                        heap_drops@,
                        n,
                    )) + text::line_c(inner.ind, "return __ret;"@) + text::line_c(cx.ind, "}"@)
                },
                None => text == frames::return_drops_text(cx.sym, cx.owns, cx.f, cx.ind,
                    heap_drops@, n)
                    + text::line_c(cx.ind, "return;"@),
            }
        }),
{
    reveal(lowered::stmt_c);
    reveal(lowered::return_c);
    reveal(lowered::expr_c);
    reveal(lowered::move_out_c);
    let text = lowered::return_c(d, cx, st, value, heap_drops@).text;
    assert(lowered::stmt_c(d, cx, st, HStmt::Return { value, heap_drops }).text == text);
    let n = heap_drops@.len();
    let here = frames::return_drops_text(cx.sym, cx.owns, cx.f, cx.ind, heap_drops@, n);
    match value {
        Some(e) => if e.ty is Unit {
            assert(text == text::line_c(cx.ind, "(void)("@ + lowered::expr_c(d, cx, st, e).text
                + ");"@) + here
                + text::line_c(cx.ind, "return;"@));
        } else {
            let cx2 = cx.nested();
            let o = lowered::expr_c(d, cx2, st, e);
            let m = lowered::move_out_c(d, cx2, o.st, e).text;
            let drops = frames::return_drops_text(cx.sym, cx.owns, cx.f, cx2.ind, heap_drops@, n);
            let a = text::line_c(cx.ind, "{"@) + text::line_c(
                cx2.ind,
                ctypes::decl_c(cx.sym, e.ty, "__ret"@) + " = "@ + o.text + ";"@,
            );
            let r = text::line_c(cx2.ind, "return __ret;"@);
            let z = text::line_c(cx.ind, "}"@);
            assert(a + m + drops + r + z =~= a + (m + drops) + r + z);
            assert(text == a + (m + drops) + r + z);
        },
        None => {
            assert(text == here + text::line_c(cx.ind, "return;"@));
        },
    }
}

/// In an expansion a declaration sets its local, makes the cell of an owning pointer where the
/// value does not hand one over, and clears the source of a move.
pub proof fn law_inline_declaration_does_no_more(
    d: nat,
    cx: Cx,
    st: St,
    id: LocalId,
    init: HExpr,
)
    ensures
        ({
            let text = lowered::inline_stmt_c(d, cx, st, HStmt::Let { local: id, init }).text;
            let name = "_il_"@ + text::decimal(id.0 as int) + "_"@ + cx.tag->0;
            let v = lowered::expr_c(d, cx, st, init);
            let ty = cx.f.locals@[id.0 as int].ty;
            let moves = (init.ty is OwnPtr || init.ty is Heap) && (init.kind is Field
                || init.kind is Index) && analysis::owned_place(init);
            let clears = if moves {
                lowered::cleared_c(cx.sym, init.ty, lowered::place_c(d, cx, v.st, init).text) + " "@
            } else {
                ""@
            };
            let from_local = init.kind matches HExprKind::Local(src)
                && cx.f.locals@[src.0 as int].ty is Heap;
            let handed = from_local || init.kind is HeapAlloc || (init.kind is Call
                && init.ty is Heap) || ((init.ty is Heap || init.ty is OwnPtr)
                    && validity::owner_depth(init.ty)
                >= validity::owner_depth(ty));
            match ty {
                HType::Heap { inner } if !(*inner is Vec) && !handed => text == name + " = ("@
                    + ctypes::ty_c(
                    cx.sym,
                    *inner,
                ) + "*)malloc(sizeof("@ + ctypes::ty_c(cx.sym, *inner) + ")); *"@ + name + " = ("@
                    + v.text
                    + "); "@ + clears,
                _ => text == name + " = "@ + v.text + "; "@ + clears,
            }
        }),
{
    reveal(lowered::inline_stmt_c);
    reveal(lowered::place_c);
    reveal(lowered::expr_c);
    reveal_strlit("");
    let v = lowered::expr_c(d, cx, st, init);
    let name = ctypes::inline_local_c(id, cx.tag->0);
    let clear = lowered::cleared_c(cx.sym, init.ty, lowered::place_c(d, cx, v.st, init).text);
    let set = name + " = "@ + v.text + "; "@;
    assert(name =~= "_il_"@ + text::decimal(id.0 as int) + "_"@ + cx.tag->0);
    assert(set + ""@ =~= set);
    assert(set + clear + " "@ =~= set + (clear + " "@));
    if let HType::Heap { inner } = cx.f.locals@[id.0 as int].ty {
        let c = ctypes::ty_c(cx.sym, *inner);
        let made = name + " = ("@ + c + "*)malloc(sizeof("@ + c + ")); *"@ + name + " = ("@ + v.text
            + "); "@;
        assert(made + ""@ =~= made);
        assert(made + clear + " "@ =~= made + (clear + " "@));
    }
}

/// A declaration of an owning pointer makes a cell where the value leads to fewer cells than the
/// local does.
pub proof fn law_declaration_makes_the_missing_cell(
    d: nat,
    cx: Cx,
    st: St,
    id: LocalId,
    init: HExpr,
    inner: HType,
)
    requires
        cx.f.locals@[id.0 as int].ty == (HType::Heap { inner: Box::new(inner) }),
        !(inner is Vec),
        !(init.kind is Local) && !(init.kind is HeapAlloc) && !(init.kind is Call),
        validity::owner_depth(init.ty) <= validity::owner_depth(inner),
    ensures
        ({
            let v = lowered::expr_c(d, cx, st, init);
            let t = ctypes::ty_c(cx.sym, HType::Heap { inner: Box::new(inner) });
            let name = statement_laws::numbered(cx.f, id);
            lowered::let_c(d, cx, st, id, init).text == text::line_c(
                cx.ind,
                t + " "@ + name + " = ("@ + t + ")malloc(sizeof("@ + ctypes::ty_c(cx.sym, inner)
                    + "));"@,
            ) + text::line_c(cx.ind, "*"@ + name + " = "@ + v.text + ";"@) + lowered::move_out_c(
                d,
                cx,
                v.st,
                init,
            ).text
        }),
{
    reveal(lowered::let_c);
    reveal(lowered::expr_c);
    reveal(lowered::move_out_c);
    statement_laws::law_owner_depth(HType::Heap { inner: Box::new(inner) }, inner, true);
    statement_laws::law_owner_depth(init.ty, inner, true);
}

/// A move empties the place that it moves from; anything else leaves its source as it is.
pub proof fn law_moves_clear_their_source(d: nat, cx: Cx, st: St, value: HExpr)
    ensures
        ({
            let moves = (value.ty is OwnPtr || value.ty is Heap) && (value.kind is Field
                || value.kind is Index) && analysis::owned_place(value);
            lowered::move_out_c(d, cx, st, value).text == (if moves {
                text::line_c(cx.ind, lowered::cleared_c(cx.sym, value.ty, lowered::place_c(d, cx,
                    st, value).text))
            } else {
                ""@
            })
        }),
{
    reveal(lowered::move_out_c);
    reveal(lowered::place_c);
}

/// In an expansion too an assignment that moves empties the place that it moves from.
pub proof fn law_inline_moves_clear_their_source(
    d: nat,
    cx: Cx,
    st: St,
    op: HAssignOp,
    place: HExpr,
    value: HExpr,
)
    ensures
        ({
            let moves = (value.ty is OwnPtr || value.ty is Heap) && (value.kind is Field
                || value.kind is Index) && analysis::owned_place(value);
            let l = lowered::place_c(d, cx, st, place);
            let r = lowered::expr_c(d, cx, l.st, value);
            let clear = lowered::cleared_c(cx.sym, value.ty, lowered::place_c(d, cx, r.st,
                value).text);
            let text = lowered::inline_stmt_c(d, cx, st, HStmt::Assign { op, place, value }).text;
            let set = l.text + " "@ + operators::assign_text(op) + " "@ + r.text + "; "@;
            &&& moves ==> ends(text, set + clear + " "@)
            &&& !moves ==> ends(text, set)
        }),
{
    reveal(lowered::inline_stmt_c);
    reveal(lowered::place_c);
    reveal(lowered::expr_c);
    reveal_strlit("");
    let l = lowered::place_c(d, cx, st, place);
    let r = lowered::expr_c(d, cx, l.st, value);
    let clear = lowered::cleared_c(cx.sym, value.ty, lowered::place_c(d, cx, r.st, value).text);
    let set = l.text + " "@ + operators::assign_text(op) + " "@ + r.text + "; "@;
    let drop = drops::field_drop_c(cx.sym, cx.owns, cx.ind, l.text, place.ty, 0);
    let tail = set + clear + " "@;
    lemma_ends(""@, set);
    lemma_ends("*"@, set);
    lemma_ends(drop, set);
    lemma_ends(""@, tail);
    lemma_ends("*"@, tail);
    lemma_ends(drop, tail);
    assert(""@ + set =~= set);
    assert(""@ + tail =~= tail);
    assert("*"@ + set + clear + " "@ =~= "*"@ + tail);
    assert(drop + set + clear + " "@ =~= drop + tail);
}

/// In an expansion a return keeps the value where one is wanted, empties the place that it
/// moves from, releases what is left and goes to the end.
pub proof fn law_inline_return_does_no_more(d: nat, cx: Cx, st: St, value: HExpr,
    drops: Vec<LocalId>)
    ensures
        ({
            let moves = (value.ty is OwnPtr || value.ty is Heap) && (value.kind is Field
                || value.kind is Index) && analysis::owned_place(value);
            let out = lowered::inline_stmt_c(
                d,
                cx,
                st,
                HStmt::Return { value: Some(value), heap_drops: drops },
            ).text;
            let e = lowered::expr_c(d, cx, st, value);
            let emptied = lowered::cleared_c(cx.sym, value.ty, lowered::place_c(d, cx, e.st,
                value).text);
            let leave = frames::spliced_drops(
                cx.sym,
                cx.owns,
                cx.ind,
                cx.f,
                cx.tag->0,
                drops@,
                cx.f.body.heap_to_free@,
                drops@.len(),
            ) + "goto end_"@ + cx.tag->0 + "; "@;
            &&& cx.wanted && moves ==> out == "__r_"@ + cx.tag->0 + " = ("@ + e.text + "); "@
                + (emptied
                + " "@) + leave
            &&& cx.wanted && !moves ==> out == "__r_"@ + cx.tag->0 + " = ("@ + e.text + "); "@
                + leave
            &&& !cx.wanted ==> out == "(void)("@ + e.text + "); "@ + leave
        }),
{
    reveal(lowered::inline_stmt_c);
    reveal(lowered::place_c);
    reveal(lowered::expr_c);
}

/// The text ends with `tail`.
pub open spec fn ends(t: Seq<char>, tail: Seq<char>) -> bool {
    tail.len() <= t.len() && t.skip(t.len() - tail.len()) == tail
}

proof fn lemma_ends(a: Seq<char>, b: Seq<char>)
    ensures
        ends(a + b, b),
{
    assert((a + b).skip((a + b).len() - b.len()) =~= b);
}

/// In an expansion only an owning place that is overwritten as a whole releases what it held.
pub proof fn law_other_inline_assignments_release_nothing(
    d: nat,
    cx: Cx,
    st: St,
    op: HAssignOp,
    place: HExpr,
    value: HExpr,
)
    requires
        !validity::through_pointer(cx.f, place),
        op != HAssignOp::Assign || !drops::ty_owns(cx.sym, cx.owns, place.ty)
            || analysis::root_of(place) is None,
    ensures
        ({
            let l = lowered::place_c(d, cx, st, place);
            let r = lowered::expr_c(d, cx, l.st, value);
            text::begins(
                lowered::inline_stmt_c(d, cx, st, HStmt::Assign { op, place, value }).text,
                l.text + " "@ + operators::assign_text(op) + " "@ + r.text + "; "@,
            )
        }),
{
    reveal(lowered::inline_stmt_c);
    reveal(lowered::place_c);
    reveal(lowered::expr_c);
    let l = lowered::place_c(d, cx, st, place);
    let r = lowered::expr_c(d, cx, l.st, value);
    let set = l.text + " "@ + operators::assign_text(op) + " "@ + r.text + "; "@;
    let m = lowered::cleared_c(cx.sym, value.ty, lowered::place_c(d, cx, r.st, value).text);
    assert((set + m + " "@).take(set.len() as int) =~= set);
    assert(set.take(set.len() as int) =~= set);
}

/// Lists without parameters, and who may call a function.
pub proof fn law_empty_parameter_lists(sym: SymTab, f: HFunc, sig: FuncSig, ind: Seq<char>,
    name: Seq<char>)
    ensures
        sig.param_tys@.len() == 0 ==> module::foreign_list(sym, sig) == (if sig.is_variadic {
            "..."@
        } else {
            "void"@
        }),
        sig.param_tys@.len() == 0 ==> dispatch::slot_text(sym, ind, name, sig) == text::line_c(
            ind,
            ctypes::ret_c(sym, sig.ret) + " (*"@ + text::ident(name) + ")("@ + "void"@ + ");"@,
        ),
        ({
            let s = sym.the_sig(f.id);
            let list = if f.params@.len() == 0 {
                "void"@
            } else {
                text::joined(ctypes::param_decls(sym, f, f.params@.len()), ", "@)
            };
            let rest = ctypes::ret_c(sym, f.ret) + " "@ + ctypes::defined_c(s) + "("@ + list + ")"@;
            let open = s.is_pub || s.is_extern || (s.name@ == "main"@ && s.logic is None);
            ctypes::signature_c(sym, f) == (if open { rest } else { "static "@ + rest })
        }),
        sig.is_extern ==> ctypes::callee_c(sig) == sig.c_name@,
        !sig.is_extern ==> ctypes::callee_c(sig) == ctypes::defined_c(sig),
{
    broadcast use pieces::lemma_put_together;

    reveal_strlit("");
    assert(""@ + ""@ + "..."@ =~= "..."@);
    assert(text::joined(module::foreign_params(sym, sig, 0), ", "@) =~= ""@);
    let r = ctypes::ret_c(sym, f.ret);
    assert(""@ + r =~= r);
}

} // verus!
