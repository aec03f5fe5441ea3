//! How deep inline calls may nest does not show in the text: whatever can be lowered
//! within one bound is lowered the same within every wider one.
use vstd::prelude::*;

use crate::analysis;
use crate::builtins;
use crate::context::{Cx, St};
use crate::depth_laws;
use crate::frames;
use crate::functions;
use crate::hir::{
    FieldInfo, FuncId, HBlock, HExpr, HExprKind, HFunc, HMatchArm, HStmt, HType, LocalId, SymTab,
};
use crate::lowered;
use crate::module;
use crate::validity;

verus! {

proof fn lemma_exprs_same(x: nat, y: nat, cx: Cx, st: St, v: Vec<HExpr>, from: nat, n: nat)
    requires
        x <= y,
        validity::exprs_ok(x, cx.sym, cx.f, cx.spliced(), v, from, n),
    ensures
        lowered::exprs_c(x, cx, st, v, from, n) == lowered::exprs_c(y, cx, st, v, from, n),
    decreases x, v, n,
{
    reveal(validity::expr_ok);
    reveal(lowered::expr_c);
    if from < n <= v@.len() {
        lemma_exprs_same(x, y, cx, st, v, from, (n - 1) as nat);
        lemma_expr_same(x, y, cx, lowered::exprs_c(x, cx, st, v, from, (n - 1) as nat).st, v@[n - 1]);
    }
}

proof fn lemma_inits_same(
    x: nat,
    y: nat,
    cx: Cx,
    st: St,
    infos: Seq<FieldInfo>,
    fields: Vec<(usize, HExpr)>,
    dflt: Seq<char>,
    n: nat,
)
    requires
        x <= y,
        validity::values_ok(x, cx.sym, cx.f, cx.spliced(), fields, n),
    ensures
        lowered::inits_c(x, cx, st, infos, fields, dflt, n) == lowered::inits_c(y, cx, st, infos, fields, dflt, n),
    decreases x, fields, n,
{
    reveal(validity::expr_ok);
    reveal(lowered::expr_c);
    if n > 0 {
        lemma_inits_same(x, y, cx, st, infos, fields, dflt, (n - 1) as nat);
        frames::lemma_value_in_range(fields@, n - 1, 0);
        let before = lowered::inits_c(x, cx, st, infos, fields, dflt, (n - 1) as nat);
        match frames::value_from(fields@, n - 1, 0) {
            Some(p) => {
                lemma_expr_same(x, y, cx, before.st, fields@[p].1);
            },
            None => {},
        }
    }
}

#[verifier::spinoff_prover]
#[verifier::rlimit(50)]
proof fn lemma_expr_same(x: nat, y: nat, cx: Cx, st: St, e: HExpr)
    requires
        x <= y,
        validity::expr_ok(x, cx.sym, cx.f, cx.spliced(), e),
    ensures
        lowered::expr_c(x, cx, st, e) == lowered::expr_c(y, cx, st, e),
    decreases x, e, 2nat,
{
    reveal(validity::expr_ok);
    reveal(lowered::expr_c);
    reveal(lowered::place_c);
    reveal(lowered::call_c);
    reveal(lowered::match_c);
    reveal(lowered::expansion_c);
    match e.kind {
        HExprKind::CallIndirect { callee, args } => {
            lemma_expr_same(x, y, cx, st, *callee);
            lemma_exprs_same(x, y, cx, lowered::expr_c(x, cx, st, *callee).st, args, 0, args@.len());
        },
        HExprKind::InlineCall { callee, args } => {
            lemma_expansion_same(x, y, cx, st, callee, args, e.ty);
        },
        HExprKind::Transfer(a) => lemma_expr_same(x, y, cx, st, *a),
        HExprKind::EnumTag(a) => lemma_expr_same(x, y, cx, st, *a),
        HExprKind::SliceLen(a) => lemma_expr_same(x, y, cx, st, *a),
        HExprKind::Closure { env_struct, env_values, .. } => {
            let n = validity::captured(cx.sym.the_struct(env_struct), env_values@.len());
            lemma_exprs_same(x, y, cx, st, env_values, 0, n);
        },
        HExprKind::Bin { lhs, rhs, .. } => {
            lemma_expr_same(x, y, cx, st, *lhs);
            lemma_expr_same(x, y, cx, lowered::expr_c(x, cx, st, *lhs).st, *rhs);
        },
        HExprKind::Un { expr, .. } => lemma_expr_same(x, y, cx, st, *expr),
        HExprKind::Unwrap { expr, .. } => lemma_expr_same(x, y, cx, st, *expr),
        HExprKind::AddrOfRef { place, .. } => lemma_place_same(x, y, cx, st, *place),
        HExprKind::Field { base, .. } => lemma_expr_same(x, y, cx, st, *base),
        HExprKind::Index { base, idx } => {
            lemma_expr_same(x, y, cx, st, *base);
            lemma_expr_same(x, y, cx, lowered::expr_c(x, cx, st, *base).st, *idx);
        },
        HExprKind::Call { callee, args } => lemma_call_same(x, y, cx, st, callee, args),
        HExprKind::Cast { expr, .. } => lemma_expr_same(x, y, cx, st, *expr),
        HExprKind::CheckedCast { expr, .. } => lemma_expr_same(x, y, cx, st, *expr),
        HExprKind::Struct { id, fields } => {
            let infos = cx.sym.the_struct(id).fields@;
            lemma_inits_same(x, y, cx, st, infos, fields, "NULL"@, infos.len());
        },
        HExprKind::ArrayLit(es) => lemma_exprs_same(x, y, cx, st, es, 0, es@.len()),
        HExprKind::DropWrite(a) => lemma_expr_same(x, y, cx, st, *a),
        HExprKind::DerefRef(a) => lemma_expr_same(x, y, cx, st, *a),
        HExprKind::HeapAlloc(a) => match (a.ty, a.kind) {
            (HType::Array { .. }, HExprKind::ArrayLit(es)) => lemma_exprs_same(
                x,
                y,
                cx,
                st,
                es,
                0,
                es@.len(),
            ),
            _ => lemma_expr_same(x, y, cx, st, *a),
        },
        HExprKind::Free(a) => lemma_expr_same(x, y, cx, st, *a),
        HExprKind::Match { .. } => lemma_match_same(x, y, cx, st, e),
        HExprKind::VariantCtor { enum_id, variant, fields } => {
            let infos = cx.sym.the_variant(enum_id, variant).fields@;
            lemma_inits_same(x, y, cx, st, infos, fields, "0"@, infos.len());
        },
        HExprKind::ArrayToSlice { base, .. } => lemma_expr_same(x, y, cx, st, *base),
        _ => {},
    }
}

proof fn lemma_place_same(x: nat, y: nat, cx: Cx, st: St, e: HExpr)
    requires
        x <= y,
        validity::expr_ok(x, cx.sym, cx.f, cx.spliced(), e),
    ensures
        lowered::place_c(x, cx, st, e) == lowered::place_c(y, cx, st, e),
    decreases x, e, 3nat,
{
    reveal(validity::expr_ok);
    reveal(lowered::place_c);
    reveal(lowered::expr_c);
    match e.kind {
        HExprKind::Field { base, .. } => lemma_expr_same(x, y, cx, st, *base),
        _ => lemma_expr_same(x, y, cx, st, e),
    }
}

proof fn lemma_call_same(x: nat, y: nat, cx: Cx, st: St, callee: FuncId, args: Vec<HExpr>)
    requires
        x <= y,
        validity::call_ok(x, cx.sym, cx.f, cx.spliced(), callee, args),
    ensures
        lowered::call_c(x, cx, st, callee, args) == lowered::call_c(y, cx, st, callee, args),
    decreases x, args, args@.len() + 3,
{
    reveal(validity::expr_ok);
    reveal(lowered::call_c);
    reveal(lowered::place_c);
    reveal(lowered::expr_c);
    match builtins::builtin_of(callee) {
        Some(b) => lemma_exprs_same(x, y, cx, st, args, 0, builtins::evaluated(b, args@.len())),
        None => if validity::dispatched(args@) {
            match args@[0].kind {
                HExprKind::AddrOfRef { place, .. } => {
                    lemma_place_same(x, y, cx, st, *place);
                    lemma_exprs_same(x, y, cx, lowered::place_c(x, cx, st, *place).st, args, 1, args@.len());
                },
                _ => {
                    lemma_expr_same(x, y, cx, st, args@[0]);
                    lemma_exprs_same(
                        x,
                        y,
                        cx,
                        lowered::expr_c(x, cx, st, args@[0]).st,
                        args,
                        1,
                        args@.len(),
                    );
                },
            }
        } else {
            lemma_exprs_same(x, y, cx, st, args, 0, args@.len());
        },
    }
}

proof fn lemma_match_same(x: nat, y: nat, cx: Cx, st: St, e: HExpr)
    requires
        x <= y,
        validity::expr_ok(x, cx.sym, cx.f, cx.spliced(), e),
    ensures
        lowered::match_c(x, cx, st, e) == lowered::match_c(y, cx, st, e),
    decreases x, e, 1nat,
{
    reveal(validity::expr_ok);
    reveal(lowered::match_c);
    reveal(lowered::expr_c);
    match e.kind {
        HExprKind::Match { scrutinee, arms, result_ty } => {
            lemma_expr_same(x, y, cx, st, *scrutinee);
            let s = lowered::expr_c(x, cx, st, *scrutinee);
            lemma_switch_arms_same(x, y, cx, s.st, arms, !(result_ty is Unit), arms@.len());
            lemma_chain_arms_same(x, y, cx, s.st, arms, !(result_ty is Unit), arms@.len());
        },
        _ => {},
    }
}

proof fn lemma_arm_body_same(x: nat, y: nat, cx: Cx, st: St, a: HMatchArm, wanted: bool)
    requires
        x <= y,
        validity::arm_ok(x, cx.sym, cx.f, cx.spliced(), a),
    ensures
        lowered::arm_body_c(x, cx, st, a, wanted) == lowered::arm_body_c(y, cx, st, a, wanted),
    decreases x, a, 1nat,
{
    reveal(validity::expr_ok);
    reveal(lowered::expr_c);
    let s = if cx.spliced() {
        lemma_inline_stmts_same(x, y, cx, st, a.body.stmts, a.body.stmts@.len());
        lowered::inline_stmts_c(x, cx, st, a.body.stmts, a.body.stmts@.len())
    } else {
        lemma_stmts_same(x, y, cx, st, a.body.stmts, a.body.stmts@.len());
        lowered::stmts_c(x, cx, st, a.body.stmts, a.body.stmts@.len())
    };
    match a.value {
        Some(v) => lemma_expr_same(x, y, cx, s.st, v),
        None => {},
    }
}

proof fn lemma_switch_arms_same(
    x: nat,
    y: nat,
    cx: Cx,
    st: St,
    arms: Vec<HMatchArm>,
    wanted: bool,
    n: nat,
)
    requires
        x <= y,
        validity::arms_ok(x, cx.sym, cx.f, cx.spliced(), arms, n),
    ensures
        lowered::switch_arms_c(x, cx, st, arms, wanted, n) == lowered::switch_arms_c(y, cx, st, arms, wanted, n),
    decreases x, arms, n,
{
    if 0 < n <= arms@.len() {
        lemma_switch_arms_same(x, y, cx, st, arms, wanted, (n - 1) as nat);
        let before = lowered::switch_arms_c(x, cx, st, arms, wanted, (n - 1) as nat);
        lemma_arm_body_same(x, y, cx, before.st, arms@[n - 1], wanted);
    }
}

proof fn lemma_chain_arm_same(x: nat, y: nat, cx: Cx, st: St, a: HMatchArm, wanted: bool)
    requires
        x <= y,
        validity::arm_ok(x, cx.sym, cx.f, cx.spliced(), a),
    ensures
        lowered::chain_arm_c(x, cx, st, a, wanted) == lowered::chain_arm_c(y, cx, st, a, wanted),
    decreases x, a, 2nat,
{
    reveal(validity::expr_ok);
    reveal(lowered::expr_c);
    match a.guard {
        Some(g) => {
            lemma_expr_same(x, y, cx, st, g);
            lemma_arm_body_same(x, y, cx, lowered::expr_c(x, cx, st, g).st, a, wanted);
        },
        None => lemma_arm_body_same(x, y, cx, st, a, wanted),
    }
}

proof fn lemma_chain_arms_same(
    x: nat,
    y: nat,
    cx: Cx,
    st: St,
    arms: Vec<HMatchArm>,
    wanted: bool,
    n: nat,
)
    requires
        x <= y,
        validity::arms_ok(x, cx.sym, cx.f, cx.spliced(), arms, n),
    ensures
        lowered::chain_arms_c(x, cx, st, arms, wanted, n) == lowered::chain_arms_c(y, cx, st, arms, wanted, n),
    decreases x, arms, n,
{
    if 0 < n <= arms@.len() {
        lemma_chain_arms_same(x, y, cx, st, arms, wanted, (n - 1) as nat);
        let before = lowered::chain_arms_c(x, cx, st, arms, wanted, (n - 1) as nat);
        lemma_chain_arm_same(x, y, cx, before.st, arms@[n - 1], wanted);
    }
}

proof fn lemma_stmts_same(x: nat, y: nat, cx: Cx, st: St, v: Vec<HStmt>, n: nat)
    requires
        x <= y,
        !cx.spliced(),
        validity::stmts_ok(x, cx.sym, cx.f, false, v, n),
    ensures
        lowered::stmts_c(x, cx, st, v, n) == lowered::stmts_c(y, cx, st, v, n),
    decreases x, v, n,
{
    reveal(validity::stmt_ok);
    reveal(lowered::stmt_c);
    if 0 < n <= v@.len() {
        lemma_stmts_same(x, y, cx, st, v, (n - 1) as nat);
        lemma_stmt_same(x, y, cx, lowered::stmts_c(x, cx, st, v, (n - 1) as nat).st, v@[n - 1]);
    }
}

proof fn lemma_block_same(x: nat, y: nat, cx: Cx, st: St, b: HBlock)
    requires
        x <= y,
        !cx.spliced(),
        validity::block_ok(x, cx.sym, cx.f, b),
    ensures
        lowered::block_c(x, cx, st, b) == lowered::block_c(y, cx, st, b),
    decreases x, b, 1nat,
{
    lemma_stmts_same(x, y, cx, st, b.stmts, b.stmts@.len());
}

proof fn lemma_move_out_same(x: nat, y: nat, cx: Cx, st: St, src: HExpr)
    requires
        x <= y,
        validity::expr_ok(x, cx.sym, cx.f, cx.spliced(), src),
    ensures
        lowered::move_out_c(x, cx, st, src) == lowered::move_out_c(y, cx, st, src),
    decreases x, src, 4nat,
{
    reveal(validity::expr_ok);
    reveal(lowered::move_out_c);
    reveal(lowered::place_c);
    lemma_place_same(x, y, cx, st, src);
}

proof fn lemma_let_same(x: nat, y: nat, cx: Cx, st: St, id: LocalId, init: HExpr)
    requires
        x <= y,
        validity::expr_ok(x, cx.sym, cx.f, cx.spliced(), init),
    ensures
        lowered::let_c(x, cx, st, id, init) == lowered::let_c(y, cx, st, id, init),
    decreases x, init, 5nat,
{
    reveal(validity::expr_ok);
    reveal(lowered::let_c);
    reveal(lowered::expr_c);
    reveal(lowered::move_out_c);
    lemma_expr_same(x, y, cx, st, init);
    lemma_move_out_same(x, y, cx, lowered::expr_c(x, cx, st, init).st, init);
}

proof fn lemma_assign_same(x: nat, y: nat, cx: Cx, st: St, s: HStmt)
    requires
        x <= y,
        !cx.spliced(),
        validity::stmt_ok(x, cx.sym, cx.f, s),
    ensures
        lowered::assign_c(x, cx, st, s) == lowered::assign_c(y, cx, st, s),
    decreases x, s, 0nat,
{
    reveal(validity::stmt_ok);
    reveal(validity::expr_ok);
    reveal(lowered::assign_c);
    reveal(lowered::place_c);
    reveal(lowered::expr_c);
    reveal(lowered::move_out_c);
    match s {
        HStmt::Assign { place, value, .. } => {
            lemma_place_same(x, y, cx, st, place);
            let l = lowered::place_c(x, cx, st, place);
            lemma_expr_same(x, y, cx, l.st, value);
            let r = lowered::expr_c(x, cx, l.st, value);
            lemma_move_out_same(x, y, cx, r.st, value);
            if let HExprKind::Unwrap { expr, .. } = place.kind {
                assert(validity::expr_ok(x, cx.sym, cx.f, false, place));
                lemma_expr_same(x, y, cx, r.st, *expr);
                lemma_move_out_same(x, y, cx, lowered::expr_c(x, cx, r.st, *expr).st, value);
            }
        },
        _ => {},
    }
}

proof fn lemma_step_same(x: nat, y: nat, cx: Cx, st: St, step: HStmt)
    requires
        x <= y,
        validity::step_ok(x, cx.sym, cx.f, cx.spliced(), step),
    ensures
        lowered::step_c(x, cx, st, step) == lowered::step_c(y, cx, st, step),
    decreases x, step, 1nat,
{
    reveal(validity::expr_ok);
    reveal(lowered::place_c);
    reveal(lowered::expr_c);
    match step {
        HStmt::Assign { place, value, .. } => {
            lemma_place_same(x, y, cx, st, place);
            lemma_expr_same(x, y, cx, lowered::place_c(x, cx, st, place).st, value);
        },
        _ => {},
    }
}

proof fn lemma_return_same(
    x: nat,
    y: nat,
    cx: Cx,
    st: St,
    value: Option<HExpr>,
    drops: Seq<LocalId>,
)
    requires
        x <= y,
        value matches Some(e) ==> validity::expr_ok(x, cx.sym, cx.f, cx.spliced(), e),
    ensures
        lowered::return_c(x, cx, st, value, drops) == lowered::return_c(y, cx, st, value, drops),
    decreases x, value, 3nat,
{
    reveal(lowered::return_c);
    reveal(lowered::expr_c);
    reveal(lowered::move_out_c);
    match value {
        Some(e) => {
            lemma_expr_same(x, y, cx, st, e);
            lemma_expr_same(x, y, cx.nested(), st, e);
            lemma_move_out_same(x, y, cx.nested(), lowered::expr_c(x, cx.nested(), st, e).st, e);
        },
        None => {},
    }
}

proof fn lemma_for_each_same(x: nat, y: nat, cx: Cx, st: St, s: HStmt)
    requires
        x <= y,
        !cx.spliced(),
        validity::stmt_ok(x, cx.sym, cx.f, s),
    ensures
        lowered::for_each_c(x, cx, st, s) == lowered::for_each_c(y, cx, st, s),
    decreases x, s, 0nat,
{
    reveal(validity::stmt_ok);
    reveal(validity::expr_ok);
    reveal(lowered::for_each_c);
    reveal(lowered::expr_c);
    match s {
        HStmt::ForEach { var, src, body } => {
            lemma_expr_same(x, y, cx, st, src);
            let o = lowered::expr_c(x, cx, st, src);
            let cx3 = cx.nested().nested();
            lemma_block_same(x, y, cx3, o.st, body);
            lemma_block_same(
                x,
                y,
                cx3,
                St { aliased: o.st.aliased.insert(var.0), ..o.st },
                body,
            );
        },
        _ => {},
    }
}

#[verifier::spinoff_prover]
#[verifier::rlimit(50)]
proof fn lemma_stmt_same(x: nat, y: nat, cx: Cx, st: St, s: HStmt)
    requires
        x <= y,
        !cx.spliced(),
        validity::stmt_ok(x, cx.sym, cx.f, s),
    ensures
        lowered::stmt_c(x, cx, st, s) == lowered::stmt_c(y, cx, st, s),
    decreases x, s, 1nat,
{
    reveal(validity::stmt_ok);
    reveal(validity::expr_ok);
    reveal(lowered::stmt_c);
    reveal(lowered::expr_c);
    reveal(lowered::let_c);
    reveal(lowered::assign_c);
    reveal(lowered::return_c);
    reveal(lowered::for_each_c);
    match s {
        HStmt::Let { local, init } => lemma_let_same(x, y, cx, st, local, init),
        HStmt::Assign { .. } => lemma_assign_same(x, y, cx, st, s),
        HStmt::ExprStmt(e) => lemma_expr_same(x, y, cx, st, e),
        HStmt::Return { value, heap_drops } => lemma_return_same(x, y, cx, st, value, heap_drops@),
        HStmt::If { cond, then_b, else_b } => {
            lemma_expr_same(x, y, cx, st, cond);
            let c = lowered::expr_c(x, cx, st, cond);
            lemma_block_same(x, y, cx.nested(), c.st, then_b);
            let t = lowered::block_c(x, cx.nested(), c.st, then_b);
            match else_b {
                Some(b) => lemma_block_same(x, y, cx.nested(), t.st, b),
                None => {},
            }
        },
        HStmt::While { cond, body } => {
            lemma_expr_same(x, y, cx, st, cond);
            lemma_block_same(x, y, cx.nested(), lowered::expr_c(x, cx, st, cond).st, body);
        },
        HStmt::Block(b) => lemma_block_same(x, y, cx.nested(), st, b),
        HStmt::Unsafe(b) => lemma_block_same(x, y, cx.nested(), st, b),
        HStmt::Break | HStmt::Continue => {},
        HStmt::Propagate { value } => match value {
            Some(e) => lemma_expr_same(x, y, cx, st, e),
            None => {},
        },
        HStmt::ForC { init, cond, step, body } => {
            lemma_stmt_same(x, y, cx, st, *init);
            let i = lowered::stmt_c(x, cx, st, *init);
            lemma_expr_same(x, y, cx, i.st, cond);
            let c = lowered::expr_c(x, cx, i.st, cond);
            lemma_step_same(x, y, cx, c.st, *step);
            let p = lowered::step_c(x, cx, c.st, *step);
            let inner = cx.nested().counting(analysis::loop_bound(*init, cond, *step, body));
            lemma_block_same(x, y, inner, p.st, body);
        },
        HStmt::ForEach { .. } => lemma_for_each_same(x, y, cx, st, s),
    }
}

proof fn lemma_expansion_same(
    x: nat,
    y: nat,
    cx: Cx,
    st: St,
    callee: FuncId,
    args: Vec<HExpr>,
    ty: HType,
)
    requires
        x <= y,
        cx.sym.func_from(callee, 0) matches Some(i) ==> x > 0 && validity::exprs_ok(
            x,
            cx.sym,
            cx.f,
            cx.spliced(),
            args,
            0,
            args@.len(),
        ) && validity::expansion_ok((x - 1) as nat, cx.sym, cx.sym.funcs@[i], ty),
    ensures
        lowered::expansion_c(x, cx, st, callee, args, ty) == lowered::expansion_c(y, cx, st, callee, args, ty),
    decreases x, args, args@.len() + 1,
{
    reveal(lowered::expansion_c);
    match cx.sym.func_from(callee, 0) {
        Some(i) => if x > 0 {
            let g = cx.sym.funcs@[i];
            let st2 = St { seq: st.seq + 1, ..st };
            lemma_exprs_same(x, y, cx, st2, args, 0, args@.len());
            let a = lowered::exprs_c(x, cx, st2, args, 0, args@.len());
            lemma_inline_stmts_same(
                (x - 1) as nat,
                (y - 1) as nat,
                cx.inside(g, lowered::expansion_tag(g, st2.seq), !(ty is Unit)),
                a.st,
                g.body.stmts,
                g.body.stmts@.len(),
            );
        },
        None => {},
    }
}

proof fn lemma_inline_stmts_same(x: nat, y: nat, cx: Cx, st: St, v: Vec<HStmt>, n: nat)
    requires
        x <= y,
        cx.spliced(),
        validity::stmts_ok(x, cx.sym, cx.f, true, v, n),
    ensures
        lowered::inline_stmts_c(x, cx, st, v, n) == lowered::inline_stmts_c(y, cx, st, v, n),
    decreases x, v, n,
{
    reveal(validity::inline_stmt_ok);
    reveal(lowered::inline_stmt_c);
    if 0 < n <= v@.len() {
        lemma_inline_stmts_same(x, y, cx, st, v, (n - 1) as nat);
        let before = lowered::inline_stmts_c(x, cx, st, v, (n - 1) as nat);
        lemma_inline_stmt_same(x, y, cx, before.st, v@[n - 1]);
    }
}

#[verifier::spinoff_prover]
#[verifier::rlimit(50)]
proof fn lemma_inline_stmt_same(x: nat, y: nat, cx: Cx, st: St, s: HStmt)
    requires
        x <= y,
        cx.spliced(),
        validity::inline_stmt_ok(x, cx.sym, cx.f, s),
    ensures
        lowered::inline_stmt_c(x, cx, st, s) == lowered::inline_stmt_c(y, cx, st, s),
    decreases x, s, 2nat,
{
    reveal(validity::inline_stmt_ok);
    reveal(validity::expr_ok);
    reveal(lowered::inline_stmt_c);
    reveal(lowered::place_c);
    reveal(lowered::expr_c);
    match s {
        HStmt::Let { init, .. } => {
            lemma_expr_same(x, y, cx, st, init);
            lemma_place_same(x, y, cx, lowered::expr_c(x, cx, st, init).st, init);
        },
        HStmt::Assign { place, value, .. } => {
            lemma_place_same(x, y, cx, st, place);
            let p = lowered::place_c(x, cx, st, place);
            lemma_expr_same(x, y, cx, p.st, value);
            lemma_place_same(x, y, cx, lowered::expr_c(x, cx, p.st, value).st, value);
        },
        HStmt::ExprStmt(e) => lemma_expr_same(x, y, cx, st, e),
        HStmt::Return { value, .. } => match value {
            Some(e) => {
                lemma_expr_same(x, y, cx, st, e);
                lemma_place_same(x, y, cx, lowered::expr_c(x, cx, st, e).st, e);
            },
            None => {},
        },
        HStmt::Propagate { value } => match value {
            Some(e) => lemma_expr_same(x, y, cx, st, e),
            None => {},
        },
        HStmt::If { cond, then_b, else_b } => {
            lemma_expr_same(x, y, cx, st, cond);
            let c = lowered::expr_c(x, cx, st, cond);
            lemma_inline_stmts_same(x, y, cx, c.st, then_b.stmts, then_b.stmts@.len());
            let t = lowered::inline_stmts_c(x, cx, c.st, then_b.stmts, then_b.stmts@.len());
            match else_b {
                Some(b) => lemma_inline_stmts_same(x, y, cx, t.st, b.stmts, b.stmts@.len()),
                None => {},
            }
        },
        HStmt::While { cond, body } => {
            lemma_expr_same(x, y, cx, st, cond);
            let c = lowered::expr_c(x, cx, st, cond);
            lemma_inline_stmts_same(x, y, cx, c.st, body.stmts, body.stmts@.len());
        },
        HStmt::Block(b) => lemma_inline_stmts_same(x, y, cx, st, b.stmts, b.stmts@.len()),
        HStmt::Unsafe(b) => lemma_inline_stmts_same(x, y, cx, st, b.stmts, b.stmts@.len()),
        HStmt::Break | HStmt::Continue => {},
        HStmt::ForC { init, cond, step, body } => {
            lemma_inline_stmt_same(x, y, cx, st, *init);
            let i = lowered::inline_stmt_c(x, cx, st, *init);
            lemma_expr_same(x, y, cx, i.st, cond);
            let c = lowered::expr_c(x, cx, i.st, cond);
            lemma_step_same(x, y, cx, c.st, *step);
            let p = lowered::step_c(x, cx, c.st, *step);
            let inner = cx.counting(analysis::loop_bound(*init, cond, *step, body));
            lemma_inline_stmts_same(x, y, inner, p.st, body.stmts, body.stmts@.len());
        },
        HStmt::ForEach { .. } => {},
    }
}

/// A function that can be written within some bound is written the same within every wider
/// one.
pub proof fn law_spare_depth_changes_nothing(
    x: nat,
    y: nat,
    sym: SymTab,
    owns: Set<Seq<char>>,
    st: St,
    f: HFunc,
)
    requires
        x <= y,
        functions::func_ok(x, sym, f),
    ensures
        functions::func_c(x, sym, owns, st, f) == functions::func_c(y, sym, owns, st, f),
{
    if !sym.the_sig(f.id).is_inline {
        lemma_block_same(x, y, functions::body_cx(sym, owns, f), st, f.body);
    }
}

/// The number of functions is as good a bound as any: within every bound in which all
/// functions can be written, they are written as within that one.
pub proof fn law_definitions_need_no_bound(d: nat, sym: SymTab, owns: Set<Seq<char>>, n: nat)
    requires
        module::funcs_ok(d, sym),
    ensures
        module::funcs_c(d, sym, owns, n) == module::funcs_c(module::max_depth(sym), sym, owns, n),
    decreases n,
{
    if 0 < n <= sym.funcs@.len() {
        law_definitions_need_no_bound(d, sym, owns, (n - 1) as nat);
        let f = sym.funcs@[n - 1];
        if module::is_concrete(sym, f) {
            let st = module::funcs_c(d, sym, owns, (n - 1) as nat).st;
            assert(functions::func_ok(d, sym, f));
            depth_laws::law_depth_is_enough(sym, d, f);
            if d <= module::max_depth(sym) {
                law_spare_depth_changes_nothing(d, module::max_depth(sym), sym, owns, st, f);
            } else {
                law_spare_depth_changes_nothing(module::max_depth(sym), d, sym, owns, st, f);
            }
        }
    }
}

} // verus!
