//! What lowering does to the state: aliases end with their loops, and expansions are
//! numbered upwards.
use vstd::prelude::*;

use crate::analysis;
use crate::builtins;
use crate::context::{Cx, St};
use crate::frames;
use crate::functions;
use crate::hir::{
    FieldInfo, FuncId, HBlock, HExpr, HExprKind, HFunc, HMatchArm, HStmt, HType, LocalId, SymTab,
};
use crate::lowered;
use crate::module;
use crate::text;
use crate::validity;

verus! {

/// The state `b` can follow `a`: no new local is aliased, and no fewer calls are expanded.
pub open spec fn later(a: St, b: St) -> bool {
    b.aliased.subset_of(a.aliased) && a.seq <= b.seq
}

proof fn lemma_exprs(d: nat, cx: Cx, st: St, v: Vec<HExpr>, from: nat, n: nat)
    ensures
        later(st, lowered::exprs_c(d, cx, st, v, from, n).st),
    decreases d, v, n,
{
    reveal(lowered::expr_c);
    if from < n <= v@.len() {
        lemma_exprs(d, cx, st, v, from, (n - 1) as nat);
        lemma_expr(d, cx, lowered::exprs_c(d, cx, st, v, from, (n - 1) as nat).st, v@[n - 1]);
    }
}

proof fn lemma_inits(
    d: nat,
    cx: Cx,
    st: St,
    infos: Seq<FieldInfo>,
    fields: Vec<(usize, HExpr)>,
    dflt: Seq<char>,
    n: nat,
)
    ensures
        later(st, lowered::inits_c(d, cx, st, infos, fields, dflt, n).st),
    decreases d, fields, n,
{
    reveal(lowered::expr_c);
    if n > 0 {
        lemma_inits(d, cx, st, infos, fields, dflt, (n - 1) as nat);
        frames::lemma_value_in_range(fields@, n - 1, 0);
        let before = lowered::inits_c(d, cx, st, infos, fields, dflt, (n - 1) as nat);
        match frames::value_from(fields@, n - 1, 0) {
            Some(p) => {
                lemma_expr(d, cx, before.st, fields@[p].1);
            },
            None => {},
        }
    }
}

#[verifier::spinoff_prover]
#[verifier::rlimit(50)]
proof fn lemma_expr(d: nat, cx: Cx, st: St, e: HExpr)
    ensures
        later(st, lowered::expr_c(d, cx, st, e).st),
    decreases d, e, 2nat,
{
    reveal(lowered::expr_c);
    reveal(lowered::place_c);
    reveal(lowered::call_c);
    reveal(lowered::match_c);
    reveal(lowered::expansion_c);
    match e.kind {
        HExprKind::CallIndirect { callee, args } => {
            lemma_expr(d, cx, st, *callee);
            lemma_exprs(d, cx, lowered::expr_c(d, cx, st, *callee).st, args, 0, args@.len());
        },
        HExprKind::InlineCall { callee, args } => {
            lemma_expansion(d, cx, st, callee, args, e.ty);
        },
        HExprKind::Transfer(x) => lemma_expr(d, cx, st, *x),
        HExprKind::EnumTag(x) => lemma_expr(d, cx, st, *x),
        HExprKind::SliceLen(x) => lemma_expr(d, cx, st, *x),
        HExprKind::Closure { env_struct, env_values, .. } => {
            let n = validity::captured(cx.sym.the_struct(env_struct), env_values@.len());
            lemma_exprs(d, cx, st, env_values, 0, n);
        },
        HExprKind::Bin { lhs, rhs, .. } => {
            lemma_expr(d, cx, st, *lhs);
            lemma_expr(d, cx, lowered::expr_c(d, cx, st, *lhs).st, *rhs);
        },
        HExprKind::Un { expr, .. } => lemma_expr(d, cx, st, *expr),
        HExprKind::Unwrap { expr, .. } => lemma_expr(d, cx, st, *expr),
        HExprKind::AddrOfRef { place, .. } => lemma_place(d, cx, st, *place),
        HExprKind::Field { base, .. } => lemma_expr(d, cx, st, *base),
        HExprKind::Index { base, idx } => {
            lemma_expr(d, cx, st, *base);
            lemma_expr(d, cx, lowered::expr_c(d, cx, st, *base).st, *idx);
        },
        HExprKind::Call { callee, args } => lemma_call(d, cx, st, callee, args),
        HExprKind::Cast { expr, .. } => lemma_expr(d, cx, st, *expr),
        HExprKind::CheckedCast { expr, .. } => lemma_expr(d, cx, st, *expr),
        HExprKind::Struct { id, fields } => {
            let infos = cx.sym.the_struct(id).fields@;
            lemma_inits(d, cx, st, infos, fields, "NULL"@, infos.len());
        },
        HExprKind::ArrayLit(es) => lemma_exprs(d, cx, st, es, 0, es@.len()),
        HExprKind::DropWrite(x) => lemma_expr(d, cx, st, *x),
        HExprKind::DerefRef(x) => lemma_expr(d, cx, st, *x),
        HExprKind::HeapAlloc(x) => {
            lemma_expr(d, cx, st, *x);
            if let HExprKind::ArrayLit(es) = x.kind {
                lemma_exprs(d, cx, st, es, 0, es@.len());
            }
        },
        HExprKind::Free(x) => lemma_expr(d, cx, st, *x),
        HExprKind::Match { .. } => lemma_match(d, cx, st, e),
        HExprKind::VariantCtor { enum_id, variant, fields } => {
            let infos = cx.sym.the_variant(enum_id, variant).fields@;
            lemma_inits(d, cx, st, infos, fields, "0"@, infos.len());
        },
        HExprKind::ArrayToSlice { base, .. } => lemma_expr(d, cx, st, *base),
        _ => {},
    }
}

proof fn lemma_place(d: nat, cx: Cx, st: St, e: HExpr)
    ensures
        later(st, lowered::place_c(d, cx, st, e).st),
    decreases d, e, 3nat,
{
    reveal(lowered::place_c);
    reveal(lowered::expr_c);
    match e.kind {
        HExprKind::Field { base, .. } => lemma_expr(d, cx, st, *base),
        _ => lemma_expr(d, cx, st, e),
    }
}

proof fn lemma_call(d: nat, cx: Cx, st: St, callee: FuncId, args: Vec<HExpr>)
    ensures
        later(st, lowered::call_c(d, cx, st, callee, args).st),
    decreases d, args, args@.len() + 3,
{
    reveal(lowered::call_c);
    reveal(lowered::place_c);
    reveal(lowered::expr_c);
    match builtins::builtin_of(callee) {
        Some(b) => lemma_exprs(d, cx, st, args, 0, builtins::evaluated(b, args@.len())),
        None => if validity::dispatched(args@) {
            match args@[0].kind {
                HExprKind::AddrOfRef { place, .. } => {
                    lemma_place(d, cx, st, *place);
                    lemma_exprs(d, cx, lowered::place_c(d, cx, st, *place).st, args, 1, args@.len());
                },
                _ => {
                    lemma_expr(d, cx, st, args@[0]);
                    lemma_exprs(d, cx, lowered::expr_c(d, cx, st, args@[0]).st, args, 1, args@.len());
                },
            }
        } else {
            lemma_exprs(d, cx, st, args, 0, args@.len());
        },
    }
}

proof fn lemma_match(d: nat, cx: Cx, st: St, e: HExpr)
    ensures
        later(st, lowered::match_c(d, cx, st, e).st),
    decreases d, e, 1nat,
{
    reveal(lowered::match_c);
    reveal(lowered::expr_c);
    match e.kind {
        HExprKind::Match { scrutinee, arms, result_ty } => {
            lemma_expr(d, cx, st, *scrutinee);
            let s = lowered::expr_c(d, cx, st, *scrutinee);
            lemma_switch_arms(d, cx, s.st, arms, !(result_ty is Unit), arms@.len());
            lemma_chain_arms(d, cx, s.st, arms, !(result_ty is Unit), arms@.len());
        },
        _ => {},
    }
}

proof fn lemma_arm_body(d: nat, cx: Cx, st: St, a: HMatchArm, wanted: bool)
    ensures
        later(st, lowered::arm_body_c(d, cx, st, a, wanted).st),
    decreases d, a, 1nat,
{
    reveal(lowered::expr_c);
    let s = if cx.spliced() {
        lemma_inline_stmts(d, cx, st, a.body.stmts, a.body.stmts@.len());
        lowered::inline_stmts_c(d, cx, st, a.body.stmts, a.body.stmts@.len())
    } else {
        lemma_stmts(d, cx, st, a.body.stmts, a.body.stmts@.len());
        lowered::stmts_c(d, cx, st, a.body.stmts, a.body.stmts@.len())
    };
    match a.value {
        Some(v) => lemma_expr(d, cx, s.st, v),
        None => {},
    }
}

proof fn lemma_switch_arms(
    d: nat,
    cx: Cx,
    st: St,
    arms: Vec<HMatchArm>,
    wanted: bool,
    n: nat,
)
    ensures
        later(st, lowered::switch_arms_c(d, cx, st, arms, wanted, n).st),
    decreases d, arms, n,
{
    if 0 < n <= arms@.len() {
        lemma_switch_arms(d, cx, st, arms, wanted, (n - 1) as nat);
        let before = lowered::switch_arms_c(d, cx, st, arms, wanted, (n - 1) as nat);
        lemma_arm_body(d, cx, before.st, arms@[n - 1], wanted);
    }
}

proof fn lemma_chain_arm(d: nat, cx: Cx, st: St, a: HMatchArm, wanted: bool)
    ensures
        later(st, lowered::chain_arm_c(d, cx, st, a, wanted).st),
    decreases d, a, 2nat,
{
    reveal(lowered::expr_c);
    match a.guard {
        Some(g) => {
            lemma_expr(d, cx, st, g);
            lemma_arm_body(d, cx, lowered::expr_c(d, cx, st, g).st, a, wanted);
        },
        None => lemma_arm_body(d, cx, st, a, wanted),
    }
}

proof fn lemma_chain_arms(
    d: nat,
    cx: Cx,
    st: St,
    arms: Vec<HMatchArm>,
    wanted: bool,
    n: nat,
)
    ensures
        later(st, lowered::chain_arms_c(d, cx, st, arms, wanted, n).st),
    decreases d, arms, n,
{
    if 0 < n <= arms@.len() {
        lemma_chain_arms(d, cx, st, arms, wanted, (n - 1) as nat);
        let before = lowered::chain_arms_c(d, cx, st, arms, wanted, (n - 1) as nat);
        lemma_chain_arm(d, cx, before.st, arms@[n - 1], wanted);
    }
}

proof fn lemma_stmts(d: nat, cx: Cx, st: St, v: Vec<HStmt>, n: nat)
    ensures
        later(st, lowered::stmts_c(d, cx, st, v, n).st),
    decreases d, v, n,
{
    reveal(lowered::stmt_c);
    if 0 < n <= v@.len() {
        lemma_stmts(d, cx, st, v, (n - 1) as nat);
        lemma_stmt(d, cx, lowered::stmts_c(d, cx, st, v, (n - 1) as nat).st, v@[n - 1]);
    }
}

proof fn lemma_block(d: nat, cx: Cx, st: St, b: HBlock)
    ensures
        later(st, lowered::block_c(d, cx, st, b).st),
    decreases d, b, 1nat,
{
    lemma_stmts(d, cx, st, b.stmts, b.stmts@.len());
}

proof fn lemma_move_out(d: nat, cx: Cx, st: St, src: HExpr)
    ensures
        later(st, lowered::move_out_c(d, cx, st, src).st),
    decreases d, src, 4nat,
{
    reveal(lowered::move_out_c);
    reveal(lowered::place_c);
    lemma_place(d, cx, st, src);
}

proof fn lemma_let(d: nat, cx: Cx, st: St, id: LocalId, init: HExpr)
    ensures
        later(st, lowered::let_c(d, cx, st, id, init).st),
    decreases d, init, 5nat,
{
    reveal(lowered::let_c);
    reveal(lowered::expr_c);
    reveal(lowered::move_out_c);
    lemma_expr(d, cx, st, init);
    lemma_move_out(d, cx, lowered::expr_c(d, cx, st, init).st, init);
}

proof fn lemma_assign(d: nat, cx: Cx, st: St, s: HStmt)
    ensures
        later(st, lowered::assign_c(d, cx, st, s).st),
    decreases d, s, 0nat,
{
    reveal(lowered::assign_c);
    reveal(lowered::place_c);
    reveal(lowered::expr_c);
    reveal(lowered::move_out_c);
    match s {
        HStmt::Assign { place, value, .. } => {
            lemma_place(d, cx, st, place);
            let l = lowered::place_c(d, cx, st, place);
            lemma_expr(d, cx, l.st, value);
            let r = lowered::expr_c(d, cx, l.st, value);
            lemma_move_out(d, cx, r.st, value);
            if let HExprKind::Unwrap { expr, .. } = place.kind {
                lemma_expr(d, cx, r.st, *expr);
                lemma_move_out(d, cx, lowered::expr_c(d, cx, r.st, *expr).st, value);
            }
        },
        _ => {},
    }
}

proof fn lemma_step(d: nat, cx: Cx, st: St, step: HStmt)
    ensures
        later(st, lowered::step_c(d, cx, st, step).st),
    decreases d, step, 1nat,
{
    reveal(lowered::place_c);
    reveal(lowered::expr_c);
    match step {
        HStmt::Assign { place, value, .. } => {
            lemma_place(d, cx, st, place);
            lemma_expr(d, cx, lowered::place_c(d, cx, st, place).st, value);
        },
        _ => {},
    }
}

proof fn lemma_return(d: nat, cx: Cx, st: St, value: Option<HExpr>, drops: Seq<LocalId>)
    ensures
        later(st, lowered::return_c(d, cx, st, value, drops).st),
    decreases d, value, 3nat,
{
    reveal(lowered::return_c);
    reveal(lowered::expr_c);
    reveal(lowered::move_out_c);
    match value {
        Some(e) => {
            lemma_expr(d, cx, st, e);
            lemma_expr(d, cx.nested(), st, e);
            lemma_move_out(d, cx.nested(), lowered::expr_c(d, cx.nested(), st, e).st, e);
        },
        None => {},
    }
}

proof fn lemma_for_each(d: nat, cx: Cx, st: St, s: HStmt)
    ensures
        later(st, lowered::for_each_c(d, cx, st, s).st),
    decreases d, s, 0nat,
{
    reveal(lowered::for_each_c);
    reveal(lowered::expr_c);
    match s {
        HStmt::ForEach { var, src, body } => {
            lemma_expr(d, cx, st, src);
            let o = lowered::expr_c(d, cx, st, src);
            let cx3 = cx.nested().nested();
            lemma_block(d, cx3, o.st, body);
            lemma_block(
                d,
                cx3,
                St { aliased: o.st.aliased.insert(var.0), ..o.st },
                body,
            );
        },
        _ => {},
    }
}

#[verifier::spinoff_prover]
#[verifier::rlimit(50)]
proof fn lemma_stmt(d: nat, cx: Cx, st: St, s: HStmt)
    ensures
        later(st, lowered::stmt_c(d, cx, st, s).st),
    decreases d, s, 1nat,
{
    reveal(lowered::stmt_c);
    reveal(lowered::expr_c);
    reveal(lowered::let_c);
    reveal(lowered::assign_c);
    reveal(lowered::return_c);
    reveal(lowered::for_each_c);
    match s {
        HStmt::Let { local, init } => lemma_let(d, cx, st, local, init),
        HStmt::Assign { .. } => lemma_assign(d, cx, st, s),
        HStmt::ExprStmt(e) => lemma_expr(d, cx, st, e),
        HStmt::Return { value, heap_drops } => lemma_return(d, cx, st, value, heap_drops@),
        HStmt::If { cond, then_b, else_b } => {
            lemma_expr(d, cx, st, cond);
            let c = lowered::expr_c(d, cx, st, cond);
            lemma_block(d, cx.nested(), c.st, then_b);
            let t = lowered::block_c(d, cx.nested(), c.st, then_b);
            match else_b {
                Some(b) => lemma_block(d, cx.nested(), t.st, b),
                None => {},
            }
        },
        HStmt::While { cond, body } => {
            lemma_expr(d, cx, st, cond);
            lemma_block(d, cx.nested(), lowered::expr_c(d, cx, st, cond).st, body);
        },
        HStmt::Block(b) => lemma_block(d, cx.nested(), st, b),
        HStmt::Unsafe(b) => lemma_block(d, cx.nested(), st, b),
        HStmt::Break | HStmt::Continue => {},
        HStmt::Propagate { value } => match value {
            Some(e) => lemma_expr(d, cx, st, e),
            None => {},
        },
        HStmt::ForC { init, cond, step, body } => {
            lemma_stmt(d, cx, st, *init);
            let i = lowered::stmt_c(d, cx, st, *init);
            lemma_expr(d, cx, i.st, cond);
            let c = lowered::expr_c(d, cx, i.st, cond);
            lemma_step(d, cx, c.st, *step);
            let p = lowered::step_c(d, cx, c.st, *step);
            let inner = cx.nested().counting(analysis::loop_bound(*init, cond, *step, body));
            lemma_block(d, inner, p.st, body);
        },
        HStmt::ForEach { .. } => lemma_for_each(d, cx, st, s),
    }
}

proof fn lemma_expansion(d: nat, cx: Cx, st: St, callee: FuncId, args: Vec<HExpr>, ty: HType)
    ensures
        later(st, lowered::expansion_c(d, cx, st, callee, args, ty).st),
        cx.sym.func_from(callee, 0) is Some && d > 0 ==> st.seq < lowered::expansion_c(
            d,
            cx,
            st,
            callee,
            args,
            ty,
        ).st.seq,
    decreases d, args, args@.len() + 1,
{
    reveal(lowered::expansion_c);
    match cx.sym.func_from(callee, 0) {
        Some(i) => if d > 0 {
            let g = cx.sym.funcs@[i];
            let st2 = St { seq: st.seq + 1, ..st };
            lemma_exprs(d, cx, st2, args, 0, args@.len());
            let a = lowered::exprs_c(d, cx, st2, args, 0, args@.len());
            lemma_inline_stmts(
                (d - 1) as nat,
                cx.inside(g, lowered::expansion_tag(g, st2.seq), !(ty is Unit)),
                a.st,
                g.body.stmts,
                g.body.stmts@.len(),
            );
        },
        None => {},
    }
}

proof fn lemma_inline_stmts(d: nat, cx: Cx, st: St, v: Vec<HStmt>, n: nat)
    ensures
        later(st, lowered::inline_stmts_c(d, cx, st, v, n).st),
    decreases d, v, n,
{
    reveal(lowered::inline_stmt_c);
    if 0 < n <= v@.len() {
        lemma_inline_stmts(d, cx, st, v, (n - 1) as nat);
        let before = lowered::inline_stmts_c(d, cx, st, v, (n - 1) as nat);
        lemma_inline_stmt(d, cx, before.st, v@[n - 1]);
    }
}

#[verifier::spinoff_prover]
#[verifier::rlimit(50)]
proof fn lemma_inline_stmt(d: nat, cx: Cx, st: St, s: HStmt)
    ensures
        later(st, lowered::inline_stmt_c(d, cx, st, s).st),
    decreases d, s, 2nat,
{
    reveal(lowered::inline_stmt_c);
    reveal(lowered::place_c);
    reveal(lowered::expr_c);
    match s {
        HStmt::Let { init, .. } => {
            lemma_expr(d, cx, st, init);
            lemma_place(d, cx, lowered::expr_c(d, cx, st, init).st, init);
        },
        HStmt::Assign { place, value, .. } => {
            lemma_place(d, cx, st, place);
            let p = lowered::place_c(d, cx, st, place);
            lemma_expr(d, cx, p.st, value);
            lemma_place(d, cx, lowered::expr_c(d, cx, p.st, value).st, value);
        },
        HStmt::ExprStmt(e) => lemma_expr(d, cx, st, e),
        HStmt::Return { value, .. } => match value {
            Some(e) => {
                lemma_expr(d, cx, st, e);
                lemma_place(d, cx, lowered::expr_c(d, cx, st, e).st, e);
            },
            None => {},
        },
        HStmt::Propagate { value } => match value {
            Some(e) => lemma_expr(d, cx, st, e),
            None => {},
        },
        HStmt::If { cond, then_b, else_b } => {
            lemma_expr(d, cx, st, cond);
            let c = lowered::expr_c(d, cx, st, cond);
            lemma_inline_stmts(d, cx, c.st, then_b.stmts, then_b.stmts@.len());
            let t = lowered::inline_stmts_c(d, cx, c.st, then_b.stmts, then_b.stmts@.len());
            match else_b {
                Some(b) => lemma_inline_stmts(d, cx, t.st, b.stmts, b.stmts@.len()),
                None => {},
            }
        },
        HStmt::While { cond, body } => {
            lemma_expr(d, cx, st, cond);
            let c = lowered::expr_c(d, cx, st, cond);
            lemma_inline_stmts(d, cx, c.st, body.stmts, body.stmts@.len());
        },
        HStmt::Block(b) => lemma_inline_stmts(d, cx, st, b.stmts, b.stmts@.len()),
        HStmt::Unsafe(b) => lemma_inline_stmts(d, cx, st, b.stmts, b.stmts@.len()),
        HStmt::Break | HStmt::Continue => {},
        HStmt::ForC { init, cond, step, body } => {
            lemma_inline_stmt(d, cx, st, *init);
            let i = lowered::inline_stmt_c(d, cx, st, *init);
            lemma_expr(d, cx, i.st, cond);
            let c = lowered::expr_c(d, cx, i.st, cond);
            lemma_step(d, cx, c.st, *step);
            let p = lowered::step_c(d, cx, c.st, *step);
            let inner = cx.counting(analysis::loop_bound(*init, cond, *step, body));
            lemma_inline_stmts(d, inner, p.st, body.stmts, body.stmts@.len());
        },
        HStmt::ForEach { .. } => {},
    }
}

/// Whatever a body contains, lowering it leaves no local aliased that was not before: an
/// alias lasts as long as the loop that makes it. Expansions are only ever added.
pub proof fn law_block_keeps_state(d: nat, cx: Cx, st: St, b: HBlock)
    ensures
        later(st, lowered::block_c(d, cx, st, b).st),
{
    lemma_block(d, cx, st, b);
}

/// An expansion takes the next number, and whatever is lowered within it or after it finds
/// that number taken: no two expansions have the same one.
pub proof fn law_expansions_numbered(
    d: nat,
    cx: Cx,
    st: St,
    callee: FuncId,
    args: Vec<HExpr>,
    ty: HType,
)
    requires
        cx.sym.func_from(callee, 0) is Some,
        d > 0,
    ensures
        later(
            St { seq: st.seq + 1, ..st },
            lowered::expansion_c(d, cx, st, callee, args, ty).st,
        ),
{
    lemma_expansion(d, cx, st, callee, args, ty);
}

/// Expansions with different numbers have different tags, as long as the numbers are below
/// the point where they wrap around. So neither their labels nor their locals collide.
pub proof fn law_expansion_tags_differ(g: HFunc, h: HFunc, m: nat, n: nat)
    requires
        m < 0x1_0000_0000,
        n < 0x1_0000_0000,
        lowered::expansion_tag(g, m) == lowered::expansion_tag(h, n),
    ensures
        m == n,
        g.id == h.id,
{
    let (a, b) = (text::decimal(m as int), text::decimal(n as int));
    text::lemma_numbered_prefix("ix"@, a, b, g.id.0 as nat, h.id.0 as nat);
    text::lemma_numbered_suffix(
        "ix"@ + text::decimal(g.id.0 as int),
        "ix"@ + text::decimal(h.id.0 as int),
        m,
        n,
    );
}

/// After all functions no local is aliased.
pub proof fn law_no_alias_left(d: nat, sym: SymTab, owns: Set<Seq<char>>, n: nat)
    ensures
        module::funcs_c(d, sym, owns, n).st.aliased == Set::<u32>::empty(),
    decreases n,
{
    if 0 < n <= sym.funcs@.len() {
        law_no_alias_left(d, sym, owns, (n - 1) as nat);
        let before = module::funcs_c(d, sym, owns, (n - 1) as nat);
        let f = sym.funcs@[n - 1];
        lemma_block(d, functions::body_cx(sym, owns, f), before.st, f.body);
    }
    assert(module::funcs_c(d, sym, owns, n).st.aliased =~= Set::<u32>::empty());
}

} // verus!
