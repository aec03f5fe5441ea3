//! The C text of expressions and statements.
//!
//! Lowering is a function of the fixed context, the state and the piece. `d` bounds
//! how deep inline calls may nest.
use vstd::prelude::*;

use crate::analysis;
use crate::builtins;
use crate::context;
use crate::context::{Cx, Out, Outs, St};
use crate::ctypes;
use crate::drops;
use crate::frames;
use crate::hir::{
    CastKind, FieldInfo, FuncId, HArmKind, HBlock, HExpr, HExprKind, HFunc, HMatchArm, HStmt,
    HType, LocalId, SymTab,
};
use crate::operators;
use crate::patterns;
use crate::places;
use crate::text;
use crate::validity;
use crate::values;

verus! {

/// A value that several pieces of text are put together to.
pub open spec fn with_text(o: Out, text: Seq<char>) -> Out {
    Out { text, st: o.st }
}

/// The values from position `from` up to `n`, one after the other.
pub open spec fn exprs_c(d: nat, cx: Cx, st: St, v: Vec<HExpr>, from: nat, n: nat) -> Outs
    decreases d, v, n,
{
    if n <= from || n > v@.len() {
        Outs { texts: Seq::empty(), st }
    } else {
        let before = exprs_c(d, cx, st, v, from, (n - 1) as nat);
        let o = expr_c(d, cx, before.st, v@[n - 1]);
        Outs { texts: before.texts.push(o.text), st: o.st }
    }
}

/// Initializers of the first `n` fields from a literal's values; a field without one
/// gets `dflt`.
pub open spec fn inits_c(
    d: nat,
    cx: Cx,
    st: St,
    infos: Seq<FieldInfo>,
    fields: Vec<(usize, HExpr)>,
    dflt: Seq<char>,
    n: nat,
) -> Outs
    decreases d, fields, n,
{
    if n == 0 {
        Outs { texts: Seq::empty(), st }
    } else {
        proof {
            frames::lemma_value_in_range(fields@, n - 1, 0);
        }
        let before = inits_c(d, cx, st, infos, fields, dflt, (n - 1) as nat);
        let o = match frames::value_from(fields@, n - 1, 0) {
            Some(p) => expr_c(d, cx, before.st, fields@[p].1),
            None => Out { text: dflt, st: before.st },
        };
        Outs {
            texts: before.texts.push("."@ + text::ident(infos[n - 1].name@) + " = "@ + o.text),
            st: o.st,
        }
    }
}

/// An expression as a C expression.
#[verifier::opaque]
pub open spec fn expr_c(d: nat, cx: Cx, st: St, e: HExpr) -> Out
    decreases d, e, 2nat,
{
    match e.kind {
        HExprKind::LitInt(n) => Out { text: operators::int_text(n), st },
        HExprKind::LitFloat(v) => Out { text: operators::float_text(v@), st },
        HExprKind::LitBool(b) => Out { text: operators::bool_text(b), st },
        HExprKind::LitChar(c) => Out { text: operators::char_text(c), st },
        HExprKind::LitStr(s) => Out { text: operators::str_text(s@), st },
        HExprKind::LitNull => Out { text: "NULL"@, st },
        HExprKind::LitUnit => Out { text: "MAKA_UNIT"@, st },
        HExprKind::Local(id) => Out { text: values::local_text(cx.f, cx.tag, st.aliased, id), st },
        HExprKind::GlobalRef(id) => Out { text: cx.sym.the_global(id).c_name@, st },
        HExprKind::CallIndirect { callee, args } => {
            let c = expr_c(d, cx, st, *callee);
            let a = exprs_c(d, cx, c.st, args, 0, args@.len());
            Out { text: values::indirect_text(callee.ty, c.text, a.texts), st: a.st }
        },
        HExprKind::InlineCall { callee, args } => expansion_c(d, cx, st, callee, args, e.ty),
        HExprKind::Transfer(x) => expr_c(d, cx, st, *x),
        HExprKind::EnumTag(x) => {
            let o = expr_c(d, cx, st, *x);
            with_text(o, values::enum_tag_text(cx.sym, x.ty, o.text))
        },
        HExprKind::SliceLen(x) => {
            let o = expr_c(d, cx, st, *x);
            with_text(o, values::slice_len_text(x.ty, o.text))
        },
        HExprKind::Closure { lifted, env_struct, env_values } => {
            let env = cx.sym.the_struct(env_struct);
            let v = exprs_c(d, cx, st, env_values, 0, validity::captured(env, env_values@.len()));
            Out { text: values::closure_text(cx.sym.the_sig(lifted), env, v.texts), st: v.st }
        },
        HExprKind::FnRef(id) => Out { text: values::fn_ref_text(cx.sym.the_sig(id)), st },
        HExprKind::EnumVariant(id, v) => Out {
            text: values::variant_text(cx.sym.the_enum(id), cx.sym.the_variant(id, v)),
            st,
        },
        HExprKind::Bin { op, lhs, rhs } => {
            let l = expr_c(d, cx, st, *lhs);
            let r = expr_c(d, cx, l.st, *rhs);
            with_text(r, values::bin_text(cx.sym, op, lhs.ty, rhs.ty, l.text, r.text))
        },
        HExprKind::Un { op, expr } => {
            let o = expr_c(d, cx, st, *expr);
            with_text(o, values::un_text(op, o.text))
        },
        HExprKind::Unwrap { expr, .. } => {
            let o = expr_c(d, cx, st, *expr);
            with_text(o, values::unwrap_text(expr.ty, o.text))
        },
        HExprKind::AddrOfRef { place, .. } => {
            let o = place_c(d, cx, st, *place);
            with_text(o, values::addr_text(place.ty, o.text))
        },
        HExprKind::Field { base, field } => {
            let o = expr_c(d, cx, st, *base);
            with_text(
                o,
                "("@ + o.text + places::arrow_text(base.ty) + places::field_text(cx.sym, base.ty, field) + ")"@,
            )
        },
        HExprKind::Index { base, idx } => {
            let b = expr_c(d, cx, st, *base);
            let i = expr_c(d, cx, b.st, *idx);
            with_text(i, places::index_text(cx.bounded, *base, *idx, b.text, i.text))
        },
        HExprKind::Call { callee, args } => call_c(d, cx, st, callee, args),
        HExprKind::Cast { expr, kind, to } => {
            let o = expr_c(d, cx, st, *expr);
            with_text(
                o,
                match kind {
                    CastKind::ToDyn { trait_name, struct_id } => values::to_dyn_text(
                        trait_name@,
                        cx.sym.the_struct(struct_id).name@,
                        expr.ty,
                        o.text,
                    ),
                    _ => operators::cast_text(cx.sym, o.text, kind, to),
                },
            )
        },
        HExprKind::CheckedCast { expr, kind, to } => {
            let o = expr_c(d, cx, st, *expr);
            with_text(o, operators::cast_text(cx.sym, o.text, kind, to))
        },
        HExprKind::Struct { id, fields } => {
            let s = cx.sym.the_struct(id);
            let p = inits_c(d, cx, st, s.fields@, fields, "NULL"@, s.fields@.len());
            Out { text: values::struct_text(s.name@, p.texts), st: p.st }
        },
        HExprKind::ArrayLit(es) => {
            let p = exprs_c(d, cx, st, es, 0, es@.len());
            Out { text: values::array_lit_text(cx.sym, e.ty, p.texts), st: p.st }
        },
        HExprKind::DropWrite(x) => expr_c(d, cx, st, *x),
        HExprKind::DerefRef(x) => {
            let o = expr_c(d, cx, st, *x);
            with_text(o, "(*("@ + o.text + "))"@)
        },
        HExprKind::HeapAlloc(x) => match x.ty {
            HType::Array { len, elem } => match x.kind {
                HExprKind::ArrayLit(es) => {
                    let p = exprs_c(d, cx, st, es, 0, es@.len());
                    Out { text: values::heap_fill_text(ctypes::ty_c(cx.sym, *elem), len, p.texts), st: p.st }
                },
                _ => {
                    let o = expr_c(d, cx, st, *x);
                    with_text(o, values::heap_copy_text(ctypes::ty_c(cx.sym, *elem), len, o.text))
                },
            },
            _ => {
                let o = expr_c(d, cx, st, *x);
                with_text(o, values::heap_cell_text(ctypes::ty_c(cx.sym, x.ty), o.text))
            },
        },
        HExprKind::Free(x) => {
            let o = expr_c(d, cx, st, *x);
            with_text(o, values::free_text(o.text))
        },
        HExprKind::Match { .. } => match_c(d, cx, st, e),
        HExprKind::VariantCtor { enum_id, variant, fields } => {
            let v = cx.sym.the_variant(enum_id, variant);
            let p = inits_c(d, cx, st, v.fields@, fields, "0"@, v.fields@.len());
            Out { text: values::payload_text(cx.sym.the_enum(enum_id), v, p.texts), st: p.st }
        },
        HExprKind::ArrayToSlice { base, len } => {
            let o = expr_c(d, cx, st, *base);
            with_text(o, values::slice_view_text(cx.sym, e.ty, o.text, len))
        },
    }
}

/// An lvalue.
#[verifier::opaque]
pub open spec fn place_c(d: nat, cx: Cx, st: St, e: HExpr) -> Out
    decreases d, e, 3nat,
{
    match e.kind {
        HExprKind::Field { base, field } => {
            let o = expr_c(d, cx, st, *base);
            with_text(o, o.text + places::arrow_text(base.ty) + places::field_text(cx.sym, base.ty, field))
        },
        _ => expr_c(d, cx, st, e),
    }
}

/// A call, direct, through a method table or of a built-in.
#[verifier::opaque]
pub open spec fn call_c(d: nat, cx: Cx, st: St, callee: FuncId, args: Vec<HExpr>) -> Out
    decreases d, args, args@.len() + 3,
{
    match builtins::builtin_of(callee) {
        Some(b) => {
            let a = exprs_c(d, cx, st, args, 0, builtins::evaluated(b, args@.len()));
            Out { text: builtins::builtin_c(cx.sym, b, args@, a.texts), st: a.st }
        },
        None => if validity::dispatched(args@) {
            let recv = match args@[0].kind {
                HExprKind::AddrOfRef { place, .. } => place_c(d, cx, st, *place),
                _ => expr_c(d, cx, st, args@[0]),
            };
            let rest = exprs_c(d, cx, recv.st, args, 1, args@.len());
            Out {
                text: values::dispatch_text(cx.sym.the_sig(callee), recv.text, rest.texts),
                st: rest.st,
            }
        } else {
            let a = exprs_c(d, cx, st, args, 0, args@.len());
            Out { text: values::direct_text(cx.sym.the_sig(callee), a.texts), st: a.st }
        },
    }
}

/// The declarations at the head of a match: the scrutinee, and the result where there
/// is one.
pub open spec fn match_head(sym: SymTab, ty: HType, s: Seq<char>, result: HType) -> Seq<char> {
    "__extension__ ({ "@ + ctypes::ty_c(sym, ty) + " __s = "@ + s + "; "@ + (if result is Unit {
        ""@
    } else {
        ctypes::ty_c(sym, result) + " __r = {0}; "@
    })
}

/// The end of a match: its result.
pub open spec fn match_tail(result: HType) -> Seq<char> {
    (if result is Unit { "MAKA_UNIT; "@ } else { "__r; "@ }) + "})"@
}

/// A match: a switch where the tag alone decides, else a chain of tests.
#[verifier::opaque]
pub open spec fn match_c(d: nat, cx: Cx, st: St, e: HExpr) -> Out
    decreases d, e, 1nat,
{
    match e.kind {
        HExprKind::Match { scrutinee, arms, result_ty } => {
            let s = expr_c(d, cx, st, *scrutinee);
            let head = match_head(cx.sym, scrutinee.ty, s.text, result_ty);
            match patterns::switch_enum(scrutinee.ty, arms@) {
                Some(id) => {
                    let a = switch_arms_c(d, cx, s.st, arms, !(result_ty is Unit), arms@.len());
                    with_text(
                        a,
                        head + "switch ("@ + patterns::tag_place(cx.sym.the_enum(id)) + ") { "@ + a.text
                            + "} "@ + match_tail(result_ty),
                    )
                },
                None => {
                    let a = chain_arms_c(d, cx, s.st, arms, !(result_ty is Unit), arms@.len());
                    with_text(
                        a,
                        head + "do { "@ + a.text + "} while (0); "@ + match_tail(result_ty),
                    )
                },
            }
        },
        _ => Out { text: ""@, st },
    }
}

/// What the end of an arm clears and releases.
pub open spec fn arm_end(cx: Cx, b: HBlock) -> Seq<char> {
    if cx.spliced() {
        frames::spliced_end(cx.sym, cx.owns, cx.ind, cx.f, cx.tag->0, b)
    } else {
        frames::collapse_text(cx.f, cx.ind, b.ptr_nulls@, b.ptr_nulls@.len()) + frames::release_text(
            cx.sym,
            cx.owns,
            cx.f,
            cx.ind,
            b.heap_to_free@,
            b.heap_to_free@.len(),
        )
    }
}

/// The statements and the value of an arm, then what its end clears and releases.
pub open spec fn arm_body_c(d: nat, cx: Cx, st: St, a: HMatchArm, wanted: bool) -> Out
    decreases d, a, 1nat,
{
    let s = if cx.spliced() {
        inline_stmts_c(d, cx, st, a.body.stmts, a.body.stmts@.len())
    } else {
        stmts_c(d, cx, st, a.body.stmts, a.body.stmts@.len())
    };
    match a.value {
        Some(v) => {
            let o = expr_c(d, cx, s.st, v);
            with_text(
                o,
                s.text + (if wanted { "__r = ("@ } else { "(void)("@ }) + o.text + "); "@ + arm_end(
                    cx,
                    a.body,
                ),
            )
        },
        None => with_text(s, s.text + arm_end(cx, a.body)),
    }
}

/// The label of an arm in a switch.
pub open spec fn case_text(sym: SymTab, k: HArmKind) -> Seq<char> {
    match k {
        HArmKind::Variant { enum_id, variant, .. } => "case "@ + text::decimal(
            sym.the_variant(enum_id, variant).tag as int,
        ) + ": { "@,
        HArmKind::Else => "default: { "@,
        _ => ""@,
    }
}

/// The first `n` arms as cases of a switch.
pub open spec fn switch_arms_c(
    d: nat,
    cx: Cx,
    st: St,
    arms: Vec<HMatchArm>,
    wanted: bool,
    n: nat,
) -> Out
    decreases d, arms, n,
{
    if n == 0 || n > arms@.len() {
        Out { text: ""@, st }
    } else {
        let before = switch_arms_c(d, cx, st, arms, wanted, (n - 1) as nat);
        let a = arms@[n - 1];
        let o = arm_body_c(d, cx, before.st, a, wanted);
        with_text(
            o,
            before.text + case_text(cx.sym, a.kind) + patterns::bindings_text(cx.sym, cx.f, cx.tag, a.kind)
                + patterns::scrutinee_text(cx.sym, cx.f, cx.tag, a.scrut_binding) + o.text + "} break; "@,
        )
    }
}

/// The guard of the arm stands inside it, because it may read what the arm binds.
pub open spec fn guard_inside(a: HMatchArm) -> bool {
    a.guard is Some && (a.scrut_binding is Some || a.kind is Variant)
}

/// The condition of an arm in a chain, given the text of its guard.
pub open spec fn arm_test(pred: Seq<char>, a: HMatchArm, guard: Seq<char>) -> Seq<char> {
    if a.guard is None || guard_inside(a) {
        pred
    } else if pred == "1"@ {
        "("@ + guard + ")"@
    } else {
        "(("@ + pred + ") && ("@ + guard + "))"@
    }
}

/// One arm of a chain of tests. A guard inside the arm that fails falls through to
/// the next arm.
pub open spec fn chain_arm_c(d: nat, cx: Cx, st: St, a: HMatchArm, wanted: bool) -> Out
    decreases d, a, 2nat,
{
    let g = match a.guard {
        Some(x) => expr_c(d, cx, st, x),
        None => Out { text: ""@, st },
    };
    let o = arm_body_c(d, cx, g.st, a, wanted);
    with_text(
        o,
        "if ("@ + arm_test(patterns::predicate_text(cx.sym, a.kind), a, g.text) + ") { "@ + patterns::bindings_text(
            cx.sym,
            cx.f,
            cx.tag,
            a.kind,
        ) + patterns::scrutinee_text(cx.sym, cx.f, cx.tag, a.scrut_binding) + (if guard_inside(a) {
            "if ("@ + g.text + ") { "@
        } else {
            ""@
        }) + o.text + (if guard_inside(a) { " break; } } "@ } else { " break; } "@ }),
    )
}

/// The first `n` arms as a chain of tests.
pub open spec fn chain_arms_c(
    d: nat,
    cx: Cx,
    st: St,
    arms: Vec<HMatchArm>,
    wanted: bool,
    n: nat,
) -> Out
    decreases d, arms, n,
{
    if n == 0 || n > arms@.len() {
        Out { text: ""@, st }
    } else {
        let before = chain_arms_c(d, cx, st, arms, wanted, (n - 1) as nat);
        let o = chain_arm_c(d, cx, before.st, arms@[n - 1], wanted);
        with_text(o, before.text + o.text)
    }
}

/// The first `n` statements, one after the other.
pub open spec fn stmts_c(d: nat, cx: Cx, st: St, v: Vec<HStmt>, n: nat) -> Out
    decreases d, v, n,
{
    if n == 0 || n > v@.len() {
        Out { text: ""@, st }
    } else {
        let before = stmts_c(d, cx, st, v, (n - 1) as nat);
        let o = stmt_c(d, cx, before.st, v@[n - 1]);
        with_text(o, before.text + o.text)
    }
}

/// A block: its statements, then what its end clears and releases.
pub open spec fn block_c(d: nat, cx: Cx, st: St, b: HBlock) -> Out
    decreases d, b, 1nat,
{
    let o = stmts_c(d, cx, st, b.stmts, b.stmts@.len());
    with_text(
        o,
        o.text + frames::collapse_text(cx.f, cx.ind, b.ptr_nulls@, b.ptr_nulls@.len()) + frames::release_text(
            cx.sym,
            cx.owns,
            cx.f,
            cx.ind,
            b.heap_to_free@,
            b.heap_to_free@.len(),
        ),
    )
}

/// The assignment that leaves nothing to release in a place of the type: an empty vector or
/// a null pointer.
pub open spec fn cleared_c(sym: SymTab, t: HType, place: Seq<char>) -> Seq<char> {
    match t {
        HType::Heap { inner } if *inner is Vec => place + " = ("@ + ctypes::ty_c(sym, *inner)
            + "){ .data = NULL, .len = 0, .cap = 0 };"@,
        _ => place + " = NULL;"@,
    }
}

/// The statement that clears the place a value was moved out of, where it has to be.
#[verifier::opaque]
pub open spec fn move_out_c(d: nat, cx: Cx, st: St, src: HExpr) -> Out
    decreases d, src, 4nat,
{
    if validity::clears_source(src) {
        let o = place_c(d, cx, st, src);
        with_text(o, text::line_c(cx.ind, cleared_c(cx.sym, src.ty, o.text)))
    } else {
        Out { text: ""@, st }
    }
}

/// A declaration with its initial value.
#[verifier::opaque]
pub open spec fn let_c(d: nat, cx: Cx, st: St, id: LocalId, init: HExpr) -> Out
    decreases d, init, 5nat,
{
    let li = cx.f.locals@[id.0 as int];
    let name = ctypes::local_c(id, li.name@);
    let o = expr_c(d, cx, st, init);
    match li.ty {
        HType::Heap { inner } => {
            let ptr = ctypes::ty_c(cx.sym, li.ty);
            let m = move_out_c(d, cx, o.st, init);
            if *inner is Vec {
                with_text(
                    m,
                    text::line_c(cx.ind, ctypes::ty_c(cx.sym, *inner) + " "@ + name + " = "@ + o.text + ";"@)
                        + m.text,
                )
            } else if validity::moved_local(cx.f, init) is Some {
                let src = validity::moved_local(cx.f, init)->0;
                Out {
                    text: text::line_c(
                        cx.ind,
                        ptr + " "@ + name + " = "@ + ctypes::local_c(
                            src,
                            cx.f.locals@[src.0 as int].name@,
                        ) + "; /* moved */"@,
                    ),
                    st,
                }
            } else if validity::hands_over(li.ty, init) {
                with_text(m, text::line_c(cx.ind, ptr + " "@ + name + " = "@ + o.text + ";"@) + m.text)
            } else {
                with_text(
                    m,
                    text::line_c(
                        cx.ind,
                        ptr + " "@ + name + " = ("@ + ptr + ")malloc(sizeof("@ + ctypes::ty_c(
                            cx.sym,
                            *inner,
                        ) + "));"@,
                    ) + text::line_c(cx.ind, "*"@ + name + " = "@ + o.text + ";"@) + m.text,
                )
            }
        },
        HType::Array { .. } => with_text(
            o,
            text::line_c(cx.ind, ctypes::decl_c(cx.sym, li.ty, name) + " = "@ + o.text + ";"@),
        ),
        _ => {
            let m = move_out_c(d, cx, o.st, init);
            with_text(
                m,
                text::line_c(
                    cx.ind,
                    (if li.thread_local { "static __thread "@ } else { ""@ }) + ctypes::decl_c(
                        cx.sym,
                        li.ty,
                        name,
                    ) + " = "@ + o.text + ";"@,
                ) + m.text,
            )
        },
    }
}

/// An assignment. The old value of an owning place is released first, unless the new
/// one is made from it.
#[verifier::opaque]
pub open spec fn assign_c(d: nat, cx: Cx, st: St, s: HStmt) -> Out
    decreases d, s, 0nat,
{
    match s {
        HStmt::Assign { op, place, value } => {
            let l = place_c(d, cx, st, place);
            let r = expr_c(d, cx, l.st, value);
            match place.kind {
                HExprKind::Unwrap { expr, .. } => {
                    let i = expr_c(d, cx, r.st, *expr);
                    let m = move_out_c(d, cx, i.st, value);
                    with_text(
                        m,
                        text::line_c(
                            cx.ind,
                            "*("@ + i.text + ") "@ + operators::assign_text(op) + " "@ + r.text + ";"@,
                        ) + m.text,
                    )
                },
                HExprKind::Local(id) if validity::through_pointer(cx.f, place) => {
                    let m = move_out_c(d, cx, r.st, value);
                    with_text(
                        m,
                        text::line_c(
                            cx.ind,
                            "*"@ + l.text + " "@ + operators::assign_text(op) + " "@ + r.text + ";"@,
                        ) + m.text,
                    )
                },
                _ => {
                    let m = move_out_c(d, cx, r.st, value);
                    let drop = if validity::overwrites(op, place, value) && drops::ty_owns(
                        cx.sym,
                        cx.owns,
                        place.ty,
                    ) {
                        drops::field_drop_c(cx.sym, cx.owns, cx.ind, l.text, place.ty, 0)
                    } else {
                        ""@
                    };
                    with_text(
                        m,
                        drop + text::line_c(
                            cx.ind,
                            l.text + " "@ + operators::assign_text(op) + " "@ + r.text + ";"@,
                        ) + m.text,
                    )
                },
            }
        },
        _ => Out { text: ""@, st },
    }
}

/// The step of a loop as an expression.
pub open spec fn step_c(d: nat, cx: Cx, st: St, step: HStmt) -> Out
    decreases d, step, 1nat,
{
    match step {
        HStmt::Assign { op, place, value } => {
            let p = place_c(d, cx, st, place);
            let v = expr_c(d, cx, p.st, value);
            with_text(v, p.text + " "@ + operators::assign_text(op) + " "@ + v.text)
        },
        _ => Out { text: "(void)0"@, st },
    }
}

/// A return. The value is computed, and the place that it is moved out of cleared, before the
/// owning locals are released.
#[verifier::opaque]
pub open spec fn return_c(
    d: nat,
    cx: Cx,
    st: St,
    value: Option<HExpr>,
    drops: Seq<LocalId>,
) -> Out
    decreases d, value, 3nat,
{
    let here = frames::return_drops_text(cx.sym, cx.owns, cx.f, cx.ind, drops, drops.len());
    match value {
        Some(e) => if e.ty is Unit {
            let o = expr_c(d, cx, st, e);
            with_text(
                o,
                text::line_c(cx.ind, "(void)("@ + o.text + ");"@) + here + text::line_c(cx.ind, "return;"@),
            )
        } else {
            let cx2 = cx.nested();
            let o = expr_c(d, cx2, st, e);
            let m = move_out_c(d, cx2, o.st, e);
            with_text(
                m,
                text::line_c(cx.ind, "{"@) + text::line_c(
                    cx2.ind,
                    ctypes::decl_c(cx.sym, e.ty, "__ret"@) + " = "@ + o.text + ";"@,
                ) + m.text + frames::return_drops_text(
                    cx.sym,
                    cx.owns,
                    cx.f,
                    cx2.ind,
                    drops,
                    drops.len(),
                ) + text::line_c(
                    cx2.ind,
                    "return __ret;"@,
                ) + text::line_c(cx.ind, "}"@),
            )
        },
        None => Out { text: here + text::line_c(cx.ind, "return;"@), st },
    }
}

/// The loop variable can alias the element: it is a struct that owns nothing, and the body
/// changes neither it nor what is walked.
pub open spec fn can_alias(cx: Cx, var: LocalId, src: HExpr, body: HBlock) -> bool {
    let ty = cx.f.locals@[var.0 as int].ty;
    &&& ty is Struct
    &&& !drops::ty_owns(cx.sym, cx.owns, ty)
    &&& !analysis::block_mutates(body, var.0)
    &&& analysis::source_kept(cx.f.locals@.len(), src, body)
}

/// The head of the C loop of a for-each.
pub open spec fn each_head(ty: HType) -> Seq<char> {
    "for (maka_int __i = 0; __i < "@ + frames::source_len_text(ty) + "; __i += 1) {"@
}

/// A loop over the elements of an array, a slice or a vector.
#[verifier::opaque]
pub open spec fn for_each_c(d: nat, cx: Cx, st: St, s: HStmt) -> Out
    decreases d, s, 0nat,
{
    match s {
        HStmt::ForEach { var, src, body } => {
            let li = cx.f.locals@[var.0 as int];
            let name = ctypes::local_c(var, li.name@);
            let o = expr_c(d, cx, st, src);
            let cx2 = cx.nested();
            let cx3 = cx2.nested();
            let open = text::line_c(cx.ind, "{"@) + frames::source_decl_text(cx.sym, cx2.ind, src.ty, o.text);
            let head = text::line_c(cx2.ind, each_head(src.ty));
            let elems = frames::source_elems_text(src.ty, o.text);
            let close = text::line_c(cx2.ind, "}"@) + text::line_c(cx.ind, "}"@);
            if can_alias(cx, var, src, body) {
                let inner = St { aliased: o.st.aliased.insert(var.0), ..o.st };
                let b = block_c(d, cx3, inner, body);
                Out {
                    text: open + head + text::line_c(
                        cx3.ind,
                        ctypes::ty_c(cx.sym, li.ty) + "* "@ + name + " = &("@ + elems + "[__i]);"@,
                    ) + b.text + close,
                    st: St { aliased: b.st.aliased.remove(var.0), ..b.st },
                }
            } else {
                let b = block_c(d, cx3, o.st, body);
                with_text(
                    b,
                    open + text::line_c(cx2.ind, ctypes::ty_c(cx.sym, li.ty) + " "@ + name + " = {0};"@) + head
                        + text::line_c(cx3.ind, name + " = "@ + elems + "[__i];"@) + b.text + close,
                )
            }
        },
        _ => Out { text: ""@, st },
    }
}

/// A statement as lines of C.
#[verifier::opaque]
pub open spec fn stmt_c(d: nat, cx: Cx, st: St, s: HStmt) -> Out
    decreases d, s, 1nat,
{
    match s {
        HStmt::Let { local, init } => let_c(d, cx, st, local, init),
        HStmt::Assign { .. } => assign_c(d, cx, st, s),
        HStmt::ExprStmt(e) => {
            let o = expr_c(d, cx, st, e);
            with_text(o, text::line_c(cx.ind, "(void)("@ + o.text + ");"@))
        },
        HStmt::Return { value, heap_drops } => return_c(d, cx, st, value, heap_drops@),
        HStmt::If { cond, then_b, else_b } => {
            let c = expr_c(d, cx, st, cond);
            let t = block_c(d, cx.nested(), c.st, then_b);
            let head = text::line_c(cx.ind, "if ("@ + c.text + ") {"@) + t.text;
            match else_b {
                Some(b) => {
                    let e = block_c(d, cx.nested(), t.st, b);
                    with_text(
                        e,
                        head + text::line_c(cx.ind, "} else {"@) + e.text + text::line_c(cx.ind, "}"@),
                    )
                },
                None => with_text(t, head + text::line_c(cx.ind, "}"@)),
            }
        },
        HStmt::While { cond, body } => {
            let c = expr_c(d, cx, st, cond);
            let b = block_c(d, cx.nested(), c.st, body);
            with_text(
                b,
                text::line_c(cx.ind, "while ("@ + c.text + ") {"@) + b.text + text::line_c(cx.ind, "}"@),
            )
        },
        HStmt::Block(b) => {
            let o = block_c(d, cx.nested(), st, b);
            with_text(o, text::line_c(cx.ind, "{"@) + o.text + text::line_c(cx.ind, "}"@))
        },
        HStmt::Unsafe(b) => {
            let o = block_c(d, cx.nested(), st, b);
            with_text(o, text::line_c(cx.ind, "/* unsafe */ {"@) + o.text + text::line_c(cx.ind, "}"@))
        },
        HStmt::Break => Out { text: text::line_c(cx.ind, "break;"@), st },
        HStmt::Continue => Out { text: text::line_c(cx.ind, "continue;"@), st },
        HStmt::Propagate { value } => match value {
            Some(e) => {
                let o = expr_c(d, cx, st, e);
                with_text(o, text::line_c(cx.ind, "return "@ + o.text + ";"@))
            },
            None => Out { text: text::line_c(cx.ind, "return;"@), st },
        },
        HStmt::ForC { init, cond, step, body } => {
            let i = stmt_c(d, cx, st, *init);
            let c = expr_c(d, cx, i.st, cond);
            let p = step_c(d, cx, c.st, *step);
            let b = block_c(
                d,
                cx.nested().counting(analysis::loop_bound(*init, cond, *step, body)),
                p.st,
                body,
            );
            with_text(
                b,
                i.text + text::line_c(cx.ind, "for (; "@ + c.text + "; "@ + p.text + ") {"@) + b.text
                    + text::line_c(cx.ind, "}"@),
            )
        },
        HStmt::ForEach { .. } => for_each_c(d, cx, st, s),
    }
}

/// The tag of an expansion: the function and the number of the expansion.
pub open spec fn expansion_tag(g: HFunc, seq: nat) -> Seq<char> {
    "ix"@ + text::decimal(g.id.0 as int) + "_"@ + text::decimal(context::written_number(seq) as int)
}

/// An inline call: the body of the function in a statement expression. `return` leaves
/// the expansion, `propagate` leaves the function that it stands in.
#[verifier::opaque]
pub open spec fn expansion_c(
    d: nat,
    cx: Cx,
    st: St,
    callee: FuncId,
    args: Vec<HExpr>,
    ty: HType,
) -> Out
    decreases d, args, args@.len() + 1,
{
    match cx.sym.func_from(callee, 0) {
        Some(i) => if d == 0 {
            Out { text: ""@, st }
        } else {
            let g = cx.sym.funcs@[i];
            let st2 = St { seq: st.seq + 1, ..st };
            let tag = expansion_tag(g, st2.seq);
            let a = exprs_c(d, cx, st2, args, 0, args@.len());
            let b = inline_stmts_c(
                (d - 1) as nat,
                cx.inside(g, tag, !(ty is Unit)),
                a.st,
                g.body.stmts,
                g.body.stmts@.len(),
            );
            with_text(
                b,
                "__extension__ ({ "@ + frames::spliced_params(cx.sym, g, tag, a.texts, g.params@.len()) + (
                if ty is Unit { ""@ } else { ctypes::ty_c(cx.sym, ty) + " __r_"@ + tag + " = {0}; "@ })
                    + frames::spliced_locals(cx.sym, g, tag, g.locals@.len()) + "do { "@ + b.text
                    + "} while (0); end_"@ + tag + ": ; "@ + frames::spliced_drops(
                    cx.sym,
                    cx.owns,
                    cx.ind,
                    g,
                    tag,
                    g.body.heap_to_free@,
                    Seq::empty(),
                    g.body.heap_to_free@.len(),
                ) + (if ty is Unit { "MAKA_UNIT; "@ } else { "__r_"@ + tag + "; "@ }) + "})"@,
            )
        },
        None => Out { text: "MAKA_UNIT"@, st },
    }
}

/// The first `n` statements of an inline function.
pub open spec fn inline_stmts_c(d: nat, cx: Cx, st: St, v: Vec<HStmt>, n: nat) -> Out
    decreases d, v, n,
{
    if n == 0 || n > v@.len() {
        Out { text: ""@, st }
    } else {
        let before = inline_stmts_c(d, cx, st, v, (n - 1) as nat);
        let o = inline_stmt_c(d, cx, before.st, v@[n - 1]);
        with_text(o, before.text + o.text)
    }
}

/// A statement of an inline function. What ends with the expansion itself is released there;
/// a return releases the rest.
#[verifier::opaque]
pub open spec fn inline_stmt_c(d: nat, cx: Cx, st: St, s: HStmt) -> Out
    decreases d, s, 2nat,
{
    let tag = cx.tag->0;
    match s {
        HStmt::Let { local, init } => {
            let n = ctypes::inline_local_c(local, tag);
            let v = expr_c(d, cx, st, init);
            let set = n + " = "@ + v.text + "; "@;
            let text = match cx.f.locals@[local.0 as int].ty {
                HType::Heap { inner } => if *inner is Vec || validity::takes_over(
                    cx.f,
                    cx.f.locals@[local.0 as int].ty,
                    init,
                ) {
                    set
                } else {
                    let c = ctypes::ty_c(cx.sym, *inner);
                    n + " = ("@ + c + "*)malloc(sizeof("@ + c + ")); *"@ + n + " = ("@ + v.text
                        + "); "@
                },
                _ => set,
            };
            if validity::clears_source(init) {
                let m = place_c(d, cx, v.st, init);
                with_text(m, text + cleared_c(cx.sym, init.ty, m.text) + " "@)
            } else {
                with_text(v, text)
            }
        },
        HStmt::Assign { op, place, value } => {
            let p = place_c(d, cx, st, place);
            let v = expr_c(d, cx, p.st, value);
            let set = p.text + " "@ + operators::assign_text(op) + " "@ + v.text + "; "@;
            let text = if validity::through_pointer(cx.f, place) {
                if place.kind is Unwrap { set } else { "*"@ + set }
            } else if validity::overwrites(op, place, value) && drops::ty_owns(cx.sym, cx.owns, place.ty) {
                drops::field_drop_c(cx.sym, cx.owns, cx.ind, p.text, place.ty, 0) + set
            } else {
                set
            };
            if validity::clears_source(value) {
                let m = place_c(d, cx, v.st, value);
                with_text(m, text + cleared_c(cx.sym, value.ty, m.text) + " "@)
            } else {
                with_text(v, text)
            }
        },
        HStmt::ExprStmt(e) => {
            let v = expr_c(d, cx, st, e);
            with_text(v, "(void)("@ + v.text + "); "@)
        },
        HStmt::Return { value, heap_drops } => {
            let jump = frames::spliced_drops(
                cx.sym,
                cx.owns,
                cx.ind,
                cx.f,
                tag,
                heap_drops@,
                cx.f.body.heap_to_free@,
                heap_drops@.len(),
            ) + "goto end_"@ + tag + "; "@;
            match value {
                Some(e) => {
                    let v = expr_c(d, cx, st, e);
                    let text = (if cx.wanted { "__r_"@ + tag + " = ("@ } else { "(void)("@ })
                        + v.text + "); "@;
                    if cx.wanted && validity::clears_source(e) {
                        let m = place_c(d, cx, v.st, e);
                        with_text(m, text + (cleared_c(cx.sym, e.ty, m.text) + " "@) + jump)
                    } else {
                        with_text(v, text + jump)
                    }
                },
                None => Out { text: jump, st },
            }
        },
        HStmt::Propagate { value } => match value {
            Some(e) => {
                let v = expr_c(d, cx, st, e);
                with_text(v, "return "@ + v.text + "; "@)
            },
            None => Out { text: "return; "@, st },
        },
        HStmt::If { cond, then_b, else_b } => {
            let c = expr_c(d, cx, st, cond);
            let t = inline_stmts_c(d, cx, c.st, then_b.stmts, then_b.stmts@.len());
            let head = "if ("@ + c.text + ") { "@ + t.text + frames::spliced_end(
                cx.sym,
                cx.owns,
                cx.ind,
                cx.f,
                tag,
                then_b,
            ) + "} "@;
            match else_b {
                Some(b) => {
                    let e = inline_stmts_c(d, cx, t.st, b.stmts, b.stmts@.len());
                    with_text(
                        e,
                        head + "else { "@ + e.text + frames::spliced_end(
                            cx.sym,
                            cx.owns,
                            cx.ind,
                            cx.f,
                            tag,
                            b,
                        )
                            + "} "@,
                    )
                },
                None => with_text(t, head),
            }
        },
        HStmt::While { cond, body } => {
            let c = expr_c(d, cx, st, cond);
            let b = inline_stmts_c(d, cx, c.st, body.stmts, body.stmts@.len());
            with_text(
                b,
                "while ("@ + c.text + ") { "@ + b.text + frames::spliced_end(
                    cx.sym,
                    cx.owns,
                    cx.ind,
                    cx.f,
                    tag,
                    body,
                ) + "} "@,
            )
        },
        HStmt::Block(b) => {
            let o = inline_stmts_c(d, cx, st, b.stmts, b.stmts@.len());
            with_text(
                o,
                "{ "@ + o.text + frames::spliced_end(cx.sym, cx.owns, cx.ind, cx.f, tag, b) + "} "@,
            )
        },
        HStmt::Unsafe(b) => {
            let o = inline_stmts_c(d, cx, st, b.stmts, b.stmts@.len());
            with_text(
                o,
                "/* unsafe */ { "@ + o.text + frames::spliced_end(
                    cx.sym,
                    cx.owns,
                    cx.ind,
                    cx.f,
                    tag,
                    b,
                ) + "} "@,
            )
        },
        HStmt::Break => Out { text: "break; "@, st },
        HStmt::Continue => Out { text: "continue; "@, st },
        HStmt::ForC { init, cond, step, body } => {
            let i = inline_stmt_c(d, cx, st, *init);
            let c = expr_c(d, cx, i.st, cond);
            let p = step_c(d, cx, c.st, *step);
            let b = inline_stmts_c(
                d,
                cx.counting(analysis::loop_bound(*init, cond, *step, body)),
                p.st,
                body.stmts,
                body.stmts@.len(),
            );
            with_text(
                b,
                i.text + "for (; "@ + c.text + "; "@ + p.text + ") { "@ + b.text + frames::spliced_end(
                    cx.sym,
                    cx.owns,
                    cx.ind,
                    cx.f,
                    tag,
                    body,
                ) + "} "@,
            )
        },
        HStmt::ForEach { .. } => Out { text: "/* for-each in inline not supported */ "@, st },
    }
}

} // verus!
