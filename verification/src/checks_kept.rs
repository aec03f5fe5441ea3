//! The counters that are known show in the text of a statement only through the checks of
//! its indices.
use vstd::prelude::*;

use crate::analysis;
use crate::analysis::BceBound;
use crate::bounds_laws;
use crate::builtins;
use crate::context;
use crate::context::{Cx, St};
use crate::frames;
use crate::hir::{FieldInfo, FuncId, HBlock, HExpr, HExprKind, HMatchArm, HStmt, HType, LocalId};
use crate::lowered;
use crate::validity;

verus! {

/// Every index in the expression has the same check, whether the counters `x` or the
/// counters `y` are known around it.
pub open spec fn alike(e: HExpr, x: Seq<(u32, BceBound)>, y: Seq<(u32, BceBound)>) -> bool
    decreases e, 1nat,
{
    &&& alike_inside(e, x, y)
    &&& e.kind matches HExprKind::Index { base, idx } ==> bounds_laws::same_check(x, y, *base, *idx)
}

/// The parts of the expression are alike.
pub open spec fn alike_inside(e: HExpr, x: Seq<(u32, BceBound)>, y: Seq<(u32, BceBound)>) -> bool
    decreases e, 0nat,
{
    match e.kind {
        HExprKind::Bin { lhs, rhs, .. } => alike(*lhs, x, y) && alike(*rhs, x, y),
        HExprKind::Un { expr, .. } => alike(*expr, x, y),
        HExprKind::Unwrap { expr, .. } => alike(*expr, x, y),
        HExprKind::AddrOfRef { place, .. } => alike(*place, x, y),
        HExprKind::Field { base, .. } => alike(*base, x, y),
        HExprKind::Index { base, idx } => alike(*base, x, y) && alike(*idx, x, y),
        HExprKind::Call { args, .. } => all_alike(args, args@.len(), x, y),
        HExprKind::Cast { expr, .. } => alike(*expr, x, y),
        HExprKind::CheckedCast { expr, .. } => alike(*expr, x, y),
        HExprKind::DropWrite(a) => alike(*a, x, y),
        HExprKind::ArrayToSlice { base, .. } => alike(*base, x, y),
        HExprKind::DerefRef(a) => alike(*a, x, y),
        HExprKind::HeapAlloc(a) => alike(*a, x, y),
        HExprKind::Free(a) => alike(*a, x, y),
        HExprKind::CallIndirect { callee, args } => alike(*callee, x, y) && all_alike(
            args,
            args@.len(),
            x,
            y,
        ),
        HExprKind::InlineCall { args, .. } => all_alike(args, args@.len(), x, y),
        HExprKind::Closure { env_values, .. } => all_alike(env_values, env_values@.len(), x, y),
        HExprKind::Transfer(a) => alike(*a, x, y),
        HExprKind::SliceLen(a) => alike(*a, x, y),
        HExprKind::EnumTag(a) => alike(*a, x, y),
        HExprKind::VariantCtor { fields, .. } => fields_alike(fields, fields@.len(), x, y),
        HExprKind::Match { scrutinee, arms, .. } => alike(*scrutinee, x, y) && arms_alike(
            arms,
            arms@.len(),
            x,
            y,
        ),
        HExprKind::Struct { fields, .. } => fields_alike(fields, fields@.len(), x, y),
        HExprKind::ArrayLit(es) => all_alike(es, es@.len(), x, y),
        _ => true,
    }
}

/// The first `k` expressions are alike.
pub open spec fn all_alike(
    v: Vec<HExpr>,
    k: nat,
    x: Seq<(u32, BceBound)>,
    y: Seq<(u32, BceBound)>,
) -> bool
    decreases v, k,
{
    0 < k <= v@.len() ==> (all_alike(v, (k - 1) as nat, x, y) && alike(v@[k - 1], x, y))
}

/// The first `k` field values are alike.
pub open spec fn fields_alike(
    v: Vec<(usize, HExpr)>,
    k: nat,
    x: Seq<(u32, BceBound)>,
    y: Seq<(u32, BceBound)>,
) -> bool
    decreases v, k,
{
    0 < k <= v@.len() ==> (fields_alike(v, (k - 1) as nat, x, y) && alike(v@[k - 1].1, x, y))
}

/// The guard, the statements and the value of the arm are alike.
pub open spec fn arm_alike(a: HMatchArm, x: Seq<(u32, BceBound)>, y: Seq<(u32, BceBound)>) -> bool
    decreases a, 0nat,
{
    &&& (match a.guard {
        Some(g) => alike(g, x, y),
        None => true,
    })
    &&& stmts_alike(a.body.stmts, a.body.stmts@.len(), x, y)
    &&& (match a.value {
        Some(v) => alike(v, x, y),
        None => true,
    })
}

/// The first `k` arms are alike.
pub open spec fn arms_alike(
    v: Vec<HMatchArm>,
    k: nat,
    x: Seq<(u32, BceBound)>,
    y: Seq<(u32, BceBound)>,
) -> bool
    decreases v, k,
{
    0 < k <= v@.len() ==> (arms_alike(v, (k - 1) as nat, x, y) && arm_alike(v@[k - 1], x, y))
}

/// The statement is alike; the counter of a loop is known in its body either way.
pub open spec fn stmt_alike(s: HStmt, x: Seq<(u32, BceBound)>, y: Seq<(u32, BceBound)>) -> bool
    decreases s, 0nat,
{
    match s {
        HStmt::Let { init, .. } => alike(init, x, y),
        HStmt::Assign { place, value, .. } => alike(place, x, y) && alike(value, x, y),
        HStmt::ExprStmt(e) => alike(e, x, y),
        HStmt::Return { value, .. } => match value {
            Some(e) => alike(e, x, y),
            None => true,
        },
        HStmt::If { cond, then_b, else_b } => {
            &&& alike(cond, x, y)
            &&& stmts_alike(then_b.stmts, then_b.stmts@.len(), x, y)
            &&& (match else_b {
                Some(b) => stmts_alike(b.stmts, b.stmts@.len(), x, y),
                None => true,
            })
        },
        HStmt::While { cond, body } => alike(cond, x, y) && stmts_alike(
            body.stmts,
            body.stmts@.len(),
            x,
            y,
        ),
        HStmt::Block(b) => stmts_alike(b.stmts, b.stmts@.len(), x, y),
        HStmt::Unsafe(b) => stmts_alike(b.stmts, b.stmts@.len(), x, y),
        HStmt::Break | HStmt::Continue => true,
        HStmt::ForC { init, cond, step, body } => {
            &&& stmt_alike(*init, x, y)
            &&& alike(cond, x, y)
            &&& stmt_alike(*step, x, y)
            &&& stmts_alike(
                body.stmts,
                body.stmts@.len(),
                context::counted(x, analysis::loop_bound(*init, cond, *step, body)),
                context::counted(y, analysis::loop_bound(*init, cond, *step, body)),
            )
        },
        HStmt::ForEach { src, body, .. } => alike(src, x, y) && stmts_alike(
            body.stmts,
            body.stmts@.len(),
            x,
            y,
        ),
        HStmt::Propagate { value } => match value {
            Some(e) => alike(e, x, y),
            None => true,
        },
    }
}

/// The first `k` statements are alike.
pub open spec fn stmts_alike(
    v: Vec<HStmt>,
    k: nat,
    x: Seq<(u32, BceBound)>,
    y: Seq<(u32, BceBound)>,
) -> bool
    decreases v, k,
{
    0 < k <= v@.len() ==> (stmts_alike(v, (k - 1) as nat, x, y) && stmt_alike(v@[k - 1], x, y))
}

/// The expression is an index whose check depends on whether the counters `x` or the counters
/// `y` are known around the loops that it stands in.
pub open spec fn apart(
    part: HExpr,
    x: Seq<(u32, BceBound)>,
    y: Seq<(u32, BceBound)>,
    loops: Seq<HStmt>,
) -> bool {
    match part.kind {
        HExprKind::Index { base, idx } => !bounds_laws::same_check(
            bounds_laws::loops_known(x, loops),
            bounds_laws::loops_known(y, loops),
            *base,
            *idx,
        ),
        _ => false,
    }
}

proof fn lemma_one_alike(
    v: Vec<HExpr>,
    n: nat,
    i: int,
    x: Seq<(u32, BceBound)>,
    y: Seq<(u32, BceBound)>,
)
    requires
        0 <= i < n <= v@.len(),
        all_alike(v, n, x, y),
    ensures
        alike(v@[i], x, y),
    decreases n,
{
    if i < n - 1 {
        lemma_one_alike(v, (n - 1) as nat, i, x, y);
    }
}

proof fn lemma_field_alike(
    v: Vec<(usize, HExpr)>,
    n: nat,
    i: int,
    x: Seq<(u32, BceBound)>,
    y: Seq<(u32, BceBound)>,
)
    requires
        0 <= i < n <= v@.len(),
        fields_alike(v, n, x, y),
    ensures
        alike(v@[i].1, x, y),
    decreases n,
{
    if i < n - 1 {
        lemma_field_alike(v, (n - 1) as nat, i, x, y);
    }
}

proof fn lemma_unlike(
    e: HExpr,
    x: Seq<(u32, BceBound)>,
    y: Seq<(u32, BceBound)>,
) -> (w: (HExpr, Seq<HStmt>))
    requires
        !alike(e, x, y),
    ensures
        bounds_laws::stands(e, w.0, w.1),
        apart(w.0, x, y, w.1),
    decreases e, 1nat,
{
    if !alike_inside(e, x, y) {
        lemma_unlike_inside(e, x, y)
    } else {
        (e, Seq::empty())
    }
}

proof fn lemma_unlike_inside(
    e: HExpr,
    x: Seq<(u32, BceBound)>,
    y: Seq<(u32, BceBound)>,
) -> (w: (HExpr, Seq<HStmt>))
    requires
        !alike_inside(e, x, y),
    ensures
        bounds_laws::stands_inside(e, w.0, w.1),
        apart(w.0, x, y, w.1),
    decreases e, 0nat,
{
    match e.kind {
        HExprKind::Bin { lhs, rhs, .. } => if !alike(*lhs, x, y) {
            lemma_unlike(*lhs, x, y)
        } else {
            lemma_unlike(*rhs, x, y)
        },
        HExprKind::Un { expr, .. } => lemma_unlike(*expr, x, y),
        HExprKind::Unwrap { expr, .. } => lemma_unlike(*expr, x, y),
        HExprKind::AddrOfRef { place, .. } => lemma_unlike(*place, x, y),
        HExprKind::Field { base, .. } => lemma_unlike(*base, x, y),
        HExprKind::Index { base, idx } => if !alike(*base, x, y) {
            lemma_unlike(*base, x, y)
        } else {
            lemma_unlike(*idx, x, y)
        },
        HExprKind::Call { args, .. } => lemma_unlike_all(args, args@.len(), x, y),
        HExprKind::Cast { expr, .. } => lemma_unlike(*expr, x, y),
        HExprKind::CheckedCast { expr, .. } => lemma_unlike(*expr, x, y),
        HExprKind::DropWrite(a) => lemma_unlike(*a, x, y),
        HExprKind::ArrayToSlice { base, .. } => lemma_unlike(*base, x, y),
        HExprKind::DerefRef(a) => lemma_unlike(*a, x, y),
        HExprKind::HeapAlloc(a) => lemma_unlike(*a, x, y),
        HExprKind::Free(a) => lemma_unlike(*a, x, y),
        HExprKind::CallIndirect { callee, args } => if !alike(*callee, x, y) {
            lemma_unlike(*callee, x, y)
        } else {
            lemma_unlike_all(args, args@.len(), x, y)
        },
        HExprKind::InlineCall { args, .. } => lemma_unlike_all(args, args@.len(), x, y),
        HExprKind::Closure { env_values, .. } => lemma_unlike_all(
            env_values,
            env_values@.len(),
            x,
            y,
        ),
        HExprKind::Transfer(a) => lemma_unlike(*a, x, y),
        HExprKind::SliceLen(a) => lemma_unlike(*a, x, y),
        HExprKind::EnumTag(a) => lemma_unlike(*a, x, y),
        HExprKind::VariantCtor { fields, .. } => lemma_unlike_fields(fields, fields@.len(), x, y),
        HExprKind::Match { scrutinee, arms, .. } => if !alike(*scrutinee, x, y) {
            lemma_unlike(*scrutinee, x, y)
        } else {
            lemma_unlike_arms(arms, arms@.len(), x, y)
        },
        HExprKind::Struct { fields, .. } => lemma_unlike_fields(fields, fields@.len(), x, y),
        HExprKind::ArrayLit(es) => lemma_unlike_all(es, es@.len(), x, y),
        _ => (e, Seq::empty()),
    }
}

proof fn lemma_unlike_all(
    v: Vec<HExpr>,
    n: nat,
    x: Seq<(u32, BceBound)>,
    y: Seq<(u32, BceBound)>,
) -> (w: (HExpr, Seq<HStmt>))
    requires
        !all_alike(v, n, x, y),
    ensures
        bounds_laws::any_stands(v, n, w.0, w.1),
        apart(w.0, x, y, w.1),
    decreases v, n,
{
    if !all_alike(v, (n - 1) as nat, x, y) {
        lemma_unlike_all(v, (n - 1) as nat, x, y)
    } else {
        lemma_unlike(v@[n - 1], x, y)
    }
}

proof fn lemma_unlike_fields(
    v: Vec<(usize, HExpr)>,
    n: nat,
    x: Seq<(u32, BceBound)>,
    y: Seq<(u32, BceBound)>,
) -> (w: (HExpr, Seq<HStmt>))
    requires
        !fields_alike(v, n, x, y),
    ensures
        bounds_laws::field_stands(v, n, w.0, w.1),
        apart(w.0, x, y, w.1),
    decreases v, n,
{
    if !fields_alike(v, (n - 1) as nat, x, y) {
        lemma_unlike_fields(v, (n - 1) as nat, x, y)
    } else {
        lemma_unlike(v@[n - 1].1, x, y)
    }
}

proof fn lemma_unlike_arms(
    v: Vec<HMatchArm>,
    n: nat,
    x: Seq<(u32, BceBound)>,
    y: Seq<(u32, BceBound)>,
) -> (w: (HExpr, Seq<HStmt>))
    requires
        !arms_alike(v, n, x, y),
    ensures
        bounds_laws::arm_stands(v, n, w.0, w.1),
        apart(w.0, x, y, w.1),
    decreases v, n,
{
    if !arms_alike(v, (n - 1) as nat, x, y) {
        lemma_unlike_arms(v, (n - 1) as nat, x, y)
    } else {
        let a = v@[n - 1];
        assert(!arm_alike(a, x, y));
        if a.guard is Some && !alike(a.guard->0, x, y) {
            lemma_unlike(a.guard->0, x, y)
        } else if !stmts_alike(a.body.stmts, a.body.stmts@.len(), x, y) {
            lemma_unlike_stmts(a.body.stmts, a.body.stmts@.len(), x, y)
        } else {
            lemma_unlike(a.value->0, x, y)
        }
    }
}

#[verifier::rlimit(50)]
proof fn lemma_unlike_stmt(
    s: HStmt,
    x: Seq<(u32, BceBound)>,
    y: Seq<(u32, BceBound)>,
) -> (w: (HExpr, Seq<HStmt>))
    requires
        !stmt_alike(s, x, y),
    ensures
        bounds_laws::stmt_stands(s, w.0, w.1),
        apart(w.0, x, y, w.1),
    decreases s, 0nat,
{
    match s {
        HStmt::Let { init, .. } => lemma_unlike(init, x, y),
        HStmt::Assign { place, value, .. } => if !alike(place, x, y) {
            lemma_unlike(place, x, y)
        } else {
            lemma_unlike(value, x, y)
        },
        HStmt::ExprStmt(e) => lemma_unlike(e, x, y),
        HStmt::Return { value, .. } => lemma_unlike(value->0, x, y),
        HStmt::Propagate { value } => lemma_unlike(value->0, x, y),
        HStmt::If { cond, then_b, else_b } => if !alike(cond, x, y) {
            lemma_unlike(cond, x, y)
        } else if !stmts_alike(then_b.stmts, then_b.stmts@.len(), x, y) {
            lemma_unlike_stmts(then_b.stmts, then_b.stmts@.len(), x, y)
        } else {
            let b = else_b->0;
            lemma_unlike_stmts(b.stmts, b.stmts@.len(), x, y)
        },
        HStmt::While { cond, body } => if !alike(cond, x, y) {
            lemma_unlike(cond, x, y)
        } else {
            lemma_unlike_stmts(body.stmts, body.stmts@.len(), x, y)
        },
        HStmt::Block(b) => lemma_unlike_stmts(b.stmts, b.stmts@.len(), x, y),
        HStmt::Unsafe(b) => lemma_unlike_stmts(b.stmts, b.stmts@.len(), x, y),
        HStmt::ForEach { src, body, .. } => if !alike(src, x, y) {
            lemma_unlike(src, x, y)
        } else {
            lemma_unlike_stmts(body.stmts, body.stmts@.len(), x, y)
        },
        HStmt::ForC { init, cond, step, body } => if !stmt_alike(*init, x, y) {
            lemma_unlike_stmt(*init, x, y)
        } else if !alike(cond, x, y) {
            lemma_unlike(cond, x, y)
        } else if !stmt_alike(*step, x, y) {
            lemma_unlike_stmt(*step, x, y)
        } else {
            let c = analysis::loop_bound(*init, cond, *step, body);
            let w = lemma_unlike_stmts(body.stmts, body.stmts@.len(), context::counted(x, c), context::counted(y, c));
            let around = seq![s] + w.1;
            assert(around.skip(1) =~= w.1);
            (w.0, around)
        },
        HStmt::Break | HStmt::Continue => (HExpr { kind: HExprKind::LitUnit, ty: HType::Unit }, Seq::empty()),
    }
}

proof fn lemma_unlike_stmts(
    v: Vec<HStmt>,
    n: nat,
    x: Seq<(u32, BceBound)>,
    y: Seq<(u32, BceBound)>,
) -> (w: (HExpr, Seq<HStmt>))
    requires
        !stmts_alike(v, n, x, y),
    ensures
        bounds_laws::stmts_stand(v, n, w.0, w.1),
        apart(w.0, x, y, w.1),
    decreases v, n,
{
    if !stmts_alike(v, (n - 1) as nat, x, y) {
        lemma_unlike_stmts(v, (n - 1) as nat, x, y)
    } else {
        lemma_unlike_stmt(v@[n - 1], x, y)
    }
}

proof fn lemma_exprs_alike(
    d: nat,
    cx: Cx,
    k: Seq<(u32, BceBound)>,
    st: St,
    v: Vec<HExpr>,
    from: nat,
    n: nat,
)
    requires
        all_alike(v, v@.len(), cx.bounded, k),
    ensures
        lowered::exprs_c(d, cx, st, v, from, n) == lowered::exprs_c(d, cx.knowing(k), st, v, from, n),
    decreases d, v, n,
{
    reveal(lowered::expr_c);
    if from < n <= v@.len() {
        lemma_one_alike(v, v@.len(), n - 1, cx.bounded, k);
        lemma_exprs_alike(d, cx, k, st, v, from, (n - 1) as nat);
        lemma_expr_alike(d, cx, k, lowered::exprs_c(d, cx, st, v, from, (n - 1) as nat).st, v@[n - 1]);
    }
}

proof fn lemma_inits_alike(
    d: nat,
    cx: Cx,
    k: Seq<(u32, BceBound)>,
    st: St,
    infos: Seq<FieldInfo>,
    fields: Vec<(usize, HExpr)>,
    dflt: Seq<char>,
    n: nat,
)
    requires
        fields_alike(fields, fields@.len(), cx.bounded, k),
    ensures
        lowered::inits_c(d, cx, st, infos, fields, dflt, n) == lowered::inits_c(
            d,
            cx.knowing(k),
            st,
            infos,
            fields,
            dflt,
            n,
        ),
    decreases d, fields, n,
{
    reveal(lowered::expr_c);
    if n > 0 {
        lemma_inits_alike(d, cx, k, st, infos, fields, dflt, (n - 1) as nat);
        frames::lemma_value_in_range(fields@, n - 1, 0);
        let before = lowered::inits_c(d, cx, st, infos, fields, dflt, (n - 1) as nat);
        match frames::value_from(fields@, n - 1, 0) {
            Some(p) => {
                lemma_field_alike(fields, fields@.len(), p, cx.bounded, k);
                lemma_expr_alike(d, cx, k, before.st, fields@[p].1);
            },
            None => {},
        }
    }
}

#[verifier::spinoff_prover]
#[verifier::rlimit(50)]
proof fn lemma_expr_alike(d: nat, cx: Cx, k: Seq<(u32, BceBound)>, st: St, e: HExpr)
    requires
        alike(e, cx.bounded, k),
    ensures
        lowered::expr_c(d, cx, st, e) == lowered::expr_c(d, cx.knowing(k), st, e),
    decreases d, e, 2nat,
{
    reveal(lowered::expr_c);
    reveal(lowered::place_c);
    reveal(lowered::call_c);
    reveal(lowered::match_c);
    reveal(lowered::expansion_c);
    match e.kind {
        HExprKind::CallIndirect { callee, args } => {
            lemma_expr_alike(d, cx, k, st, *callee);
            lemma_exprs_alike(d, cx, k, lowered::expr_c(d, cx, st, *callee).st, args, 0, args@.len());
        },
        HExprKind::InlineCall { callee, args } => {
            lemma_expansion_alike(d, cx, k, st, callee, args, e.ty);
        },
        HExprKind::Transfer(x) => lemma_expr_alike(d, cx, k, st, *x),
        HExprKind::EnumTag(x) => lemma_expr_alike(d, cx, k, st, *x),
        HExprKind::SliceLen(x) => lemma_expr_alike(d, cx, k, st, *x),
        HExprKind::Closure { env_struct, env_values, .. } => {
            let n = validity::captured(cx.sym.the_struct(env_struct), env_values@.len());
            lemma_exprs_alike(d, cx, k, st, env_values, 0, n);
        },
        HExprKind::Bin { lhs, rhs, .. } => {
            lemma_expr_alike(d, cx, k, st, *lhs);
            lemma_expr_alike(d, cx, k, lowered::expr_c(d, cx, st, *lhs).st, *rhs);
        },
        HExprKind::Un { expr, .. } => lemma_expr_alike(d, cx, k, st, *expr),
        HExprKind::Unwrap { expr, .. } => lemma_expr_alike(d, cx, k, st, *expr),
        HExprKind::AddrOfRef { place, .. } => lemma_place_alike(d, cx, k, st, *place),
        HExprKind::Field { base, .. } => lemma_expr_alike(d, cx, k, st, *base),
        HExprKind::Index { base, idx } => {
            lemma_expr_alike(d, cx, k, st, *base);
            lemma_expr_alike(d, cx, k, lowered::expr_c(d, cx, st, *base).st, *idx);
        },
        HExprKind::Call { callee, args } => lemma_call_alike(d, cx, k, st, callee, args),
        HExprKind::Cast { expr, .. } => lemma_expr_alike(d, cx, k, st, *expr),
        HExprKind::CheckedCast { expr, .. } => lemma_expr_alike(d, cx, k, st, *expr),
        HExprKind::Struct { id, fields } => {
            let infos = cx.sym.the_struct(id).fields@;
            lemma_inits_alike(d, cx, k, st, infos, fields, "NULL"@, infos.len());
        },
        HExprKind::ArrayLit(es) => lemma_exprs_alike(d, cx, k, st, es, 0, es@.len()),
        HExprKind::DropWrite(x) => lemma_expr_alike(d, cx, k, st, *x),
        HExprKind::DerefRef(x) => lemma_expr_alike(d, cx, k, st, *x),
        HExprKind::HeapAlloc(x) => {
            lemma_expr_alike(d, cx, k, st, *x);
            if let HExprKind::ArrayLit(es) = x.kind {
                assert(alike(*x, cx.bounded, k));
                lemma_exprs_alike(d, cx, k, st, es, 0, es@.len());
            }
        },
        HExprKind::Free(x) => lemma_expr_alike(d, cx, k, st, *x),
        HExprKind::Match { .. } => lemma_match_alike(d, cx, k, st, e),
        HExprKind::VariantCtor { enum_id, variant, fields } => {
            let infos = cx.sym.the_variant(enum_id, variant).fields@;
            lemma_inits_alike(d, cx, k, st, infos, fields, "0"@, infos.len());
        },
        HExprKind::ArrayToSlice { base, .. } => lemma_expr_alike(d, cx, k, st, *base),
        _ => {},
    }
}

proof fn lemma_place_alike(d: nat, cx: Cx, k: Seq<(u32, BceBound)>, st: St, e: HExpr)
    requires
        alike(e, cx.bounded, k),
    ensures
        lowered::place_c(d, cx, st, e) == lowered::place_c(d, cx.knowing(k), st, e),
    decreases d, e, 3nat,
{
    reveal(lowered::place_c);
    reveal(lowered::expr_c);
    match e.kind {
        HExprKind::Field { base, .. } => lemma_expr_alike(d, cx, k, st, *base),
        _ => lemma_expr_alike(d, cx, k, st, e),
    }
}

proof fn lemma_call_alike(
    d: nat,
    cx: Cx,
    k: Seq<(u32, BceBound)>,
    st: St,
    callee: FuncId,
    args: Vec<HExpr>,
)
    requires
        all_alike(args, args@.len(), cx.bounded, k),
    ensures
        lowered::call_c(d, cx, st, callee, args) == lowered::call_c(d, cx.knowing(k), st, callee, args),
    decreases d, args, args@.len() + 3,
{
    reveal(lowered::call_c);
    reveal(lowered::place_c);
    reveal(lowered::expr_c);
    match builtins::builtin_of(callee) {
        Some(b) => lemma_exprs_alike(d, cx, k, st, args, 0, builtins::evaluated(b, args@.len())),
        None => if validity::dispatched(args@) {
            lemma_one_alike(args, args@.len(), 0, cx.bounded, k);
            match args@[0].kind {
                HExprKind::AddrOfRef { place, .. } => {
                    lemma_place_alike(d, cx, k, st, *place);
                    lemma_exprs_alike(
                        d,
                        cx,
                        k,
                        lowered::place_c(d, cx, st, *place).st,
                        args,
                        1,
                        args@.len(),
                    );
                },
                _ => {
                    lemma_expr_alike(d, cx, k, st, args@[0]);
                    lemma_exprs_alike(
                        d,
                        cx,
                        k,
                        lowered::expr_c(d, cx, st, args@[0]).st,
                        args,
                        1,
                        args@.len(),
                    );
                },
            }
        } else {
            lemma_exprs_alike(d, cx, k, st, args, 0, args@.len());
        },
    }
}

proof fn lemma_match_alike(d: nat, cx: Cx, k: Seq<(u32, BceBound)>, st: St, e: HExpr)
    requires
        alike(e, cx.bounded, k),
    ensures
        lowered::match_c(d, cx, st, e) == lowered::match_c(d, cx.knowing(k), st, e),
    decreases d, e, 1nat,
{
    reveal(lowered::match_c);
    reveal(lowered::expr_c);
    match e.kind {
        HExprKind::Match { scrutinee, arms, result_ty } => {
            lemma_expr_alike(d, cx, k, st, *scrutinee);
            let s = lowered::expr_c(d, cx, st, *scrutinee);
            lemma_switch_arms_alike(d, cx, k, s.st, arms, !(result_ty is Unit), arms@.len());
            lemma_chain_arms_alike(d, cx, k, s.st, arms, !(result_ty is Unit), arms@.len());
        },
        _ => {},
    }
}

proof fn lemma_arm_body_alike(
    d: nat,
    cx: Cx,
    k: Seq<(u32, BceBound)>,
    st: St,
    a: HMatchArm,
    wanted: bool,
)
    requires
        arm_alike(a, cx.bounded, k),
    ensures
        lowered::arm_body_c(d, cx, st, a, wanted) == lowered::arm_body_c(d, cx.knowing(k), st, a, wanted),
    decreases d, a, 1nat,
{
    reveal(lowered::expr_c);
    let s = if cx.spliced() {
        lemma_inline_stmts_alike(d, cx, k, st, a.body.stmts, a.body.stmts@.len());
        lowered::inline_stmts_c(d, cx, st, a.body.stmts, a.body.stmts@.len())
    } else {
        lemma_stmts_alike(d, cx, k, st, a.body.stmts, a.body.stmts@.len());
        lowered::stmts_c(d, cx, st, a.body.stmts, a.body.stmts@.len())
    };
    match a.value {
        Some(v) => lemma_expr_alike(d, cx, k, s.st, v),
        None => {},
    }
}

proof fn lemma_switch_arms_alike(
    d: nat,
    cx: Cx,
    k: Seq<(u32, BceBound)>,
    st: St,
    arms: Vec<HMatchArm>,
    wanted: bool,
    n: nat,
)
    requires
        arms_alike(arms, n, cx.bounded, k),
    ensures
        lowered::switch_arms_c(d, cx, st, arms, wanted, n) == lowered::switch_arms_c(
            d,
            cx.knowing(k),
            st,
            arms,
            wanted,
            n,
        ),
    decreases d, arms, n,
{
    if 0 < n <= arms@.len() {
        lemma_switch_arms_alike(d, cx, k, st, arms, wanted, (n - 1) as nat);
        let before = lowered::switch_arms_c(d, cx, st, arms, wanted, (n - 1) as nat);
        lemma_arm_body_alike(d, cx, k, before.st, arms@[n - 1], wanted);
    }
}

proof fn lemma_chain_arm_alike(
    d: nat,
    cx: Cx,
    k: Seq<(u32, BceBound)>,
    st: St,
    a: HMatchArm,
    wanted: bool,
)
    requires
        arm_alike(a, cx.bounded, k),
    ensures
        lowered::chain_arm_c(d, cx, st, a, wanted) == lowered::chain_arm_c(d, cx.knowing(k), st, a, wanted),
    decreases d, a, 2nat,
{
    reveal(lowered::expr_c);
    match a.guard {
        Some(g) => {
            lemma_expr_alike(d, cx, k, st, g);
            lemma_arm_body_alike(d, cx, k, lowered::expr_c(d, cx, st, g).st, a, wanted);
        },
        None => lemma_arm_body_alike(d, cx, k, st, a, wanted),
    }
}

proof fn lemma_chain_arms_alike(
    d: nat,
    cx: Cx,
    k: Seq<(u32, BceBound)>,
    st: St,
    arms: Vec<HMatchArm>,
    wanted: bool,
    n: nat,
)
    requires
        arms_alike(arms, n, cx.bounded, k),
    ensures
        lowered::chain_arms_c(d, cx, st, arms, wanted, n) == lowered::chain_arms_c(
            d,
            cx.knowing(k),
            st,
            arms,
            wanted,
            n,
        ),
    decreases d, arms, n,
{
    if 0 < n <= arms@.len() {
        lemma_chain_arms_alike(d, cx, k, st, arms, wanted, (n - 1) as nat);
        let before = lowered::chain_arms_c(d, cx, st, arms, wanted, (n - 1) as nat);
        lemma_chain_arm_alike(d, cx, k, before.st, arms@[n - 1], wanted);
    }
}

proof fn lemma_stmts_alike(d: nat, cx: Cx, k: Seq<(u32, BceBound)>, st: St, v: Vec<HStmt>, n: nat)
    requires
        stmts_alike(v, n, cx.bounded, k),
    ensures
        lowered::stmts_c(d, cx, st, v, n) == lowered::stmts_c(d, cx.knowing(k), st, v, n),
    decreases d, v, n,
{
    reveal(lowered::stmt_c);
    if 0 < n <= v@.len() {
        lemma_stmts_alike(d, cx, k, st, v, (n - 1) as nat);
        lemma_stmt_alike(d, cx, k, lowered::stmts_c(d, cx, st, v, (n - 1) as nat).st, v@[n - 1]);
    }
}

proof fn lemma_block_alike(d: nat, cx: Cx, k: Seq<(u32, BceBound)>, st: St, b: HBlock)
    requires
        stmts_alike(b.stmts, b.stmts@.len(), cx.bounded, k),
    ensures
        lowered::block_c(d, cx, st, b) == lowered::block_c(d, cx.knowing(k), st, b),
    decreases d, b, 1nat,
{
    lemma_stmts_alike(d, cx, k, st, b.stmts, b.stmts@.len());
}

proof fn lemma_move_out_alike(d: nat, cx: Cx, k: Seq<(u32, BceBound)>, st: St, src: HExpr)
    requires
        alike(src, cx.bounded, k),
    ensures
        lowered::move_out_c(d, cx, st, src) == lowered::move_out_c(d, cx.knowing(k), st, src),
    decreases d, src, 4nat,
{
    reveal(lowered::move_out_c);
    reveal(lowered::place_c);
    lemma_place_alike(d, cx, k, st, src);
}

proof fn lemma_let_alike(d: nat, cx: Cx, k: Seq<(u32, BceBound)>, st: St, id: LocalId, init: HExpr)
    requires
        alike(init, cx.bounded, k),
    ensures
        lowered::let_c(d, cx, st, id, init) == lowered::let_c(d, cx.knowing(k), st, id, init),
    decreases d, init, 5nat,
{
    reveal(lowered::let_c);
    reveal(lowered::expr_c);
    reveal(lowered::move_out_c);
    lemma_expr_alike(d, cx, k, st, init);
    lemma_move_out_alike(d, cx, k, lowered::expr_c(d, cx, st, init).st, init);
}

proof fn lemma_assign_alike(d: nat, cx: Cx, k: Seq<(u32, BceBound)>, st: St, s: HStmt)
    requires
        stmt_alike(s, cx.bounded, k),
    ensures
        lowered::assign_c(d, cx, st, s) == lowered::assign_c(d, cx.knowing(k), st, s),
    decreases d, s, 0nat,
{
    reveal(lowered::assign_c);
    reveal(lowered::place_c);
    reveal(lowered::expr_c);
    reveal(lowered::move_out_c);
    match s {
        HStmt::Assign { place, value, .. } => {
            lemma_place_alike(d, cx, k, st, place);
            let l = lowered::place_c(d, cx, st, place);
            lemma_expr_alike(d, cx, k, l.st, value);
            let r = lowered::expr_c(d, cx, l.st, value);
            lemma_move_out_alike(d, cx, k, r.st, value);
            if let HExprKind::Unwrap { expr, .. } = place.kind {
                assert(alike(place, cx.bounded, k));
                lemma_expr_alike(d, cx, k, r.st, *expr);
                lemma_move_out_alike(d, cx, k, lowered::expr_c(d, cx, r.st, *expr).st, value);
            }
        },
        _ => {},
    }
}

proof fn lemma_step_alike(d: nat, cx: Cx, k: Seq<(u32, BceBound)>, st: St, step: HStmt)
    requires
        stmt_alike(step, cx.bounded, k),
    ensures
        lowered::step_c(d, cx, st, step) == lowered::step_c(d, cx.knowing(k), st, step),
    decreases d, step, 1nat,
{
    reveal(lowered::place_c);
    reveal(lowered::expr_c);
    match step {
        HStmt::Assign { place, value, .. } => {
            lemma_place_alike(d, cx, k, st, place);
            lemma_expr_alike(d, cx, k, lowered::place_c(d, cx, st, place).st, value);
        },
        _ => {},
    }
}

proof fn lemma_return_alike(
    d: nat,
    cx: Cx,
    k: Seq<(u32, BceBound)>,
    st: St,
    value: Option<HExpr>,
    drops: Seq<LocalId>,
)
    requires
        value matches Some(e) ==> alike(e, cx.bounded, k),
    ensures
        lowered::return_c(d, cx, st, value, drops) == lowered::return_c(d, cx.knowing(k), st, value, drops),
    decreases d, value, 3nat,
{
    reveal(lowered::return_c);
    reveal(lowered::expr_c);
    reveal(lowered::move_out_c);
    match value {
        Some(e) => {
            lemma_expr_alike(d, cx, k, st, e);
            lemma_expr_alike(d, cx.nested(), k, st, e);
            lemma_move_out_alike(d, cx.nested(), k, lowered::expr_c(d, cx.nested(), st, e).st, e);
        },
        None => {},
    }
}

proof fn lemma_for_each_alike(d: nat, cx: Cx, k: Seq<(u32, BceBound)>, st: St, s: HStmt)
    requires
        stmt_alike(s, cx.bounded, k),
    ensures
        lowered::for_each_c(d, cx, st, s) == lowered::for_each_c(d, cx.knowing(k), st, s),
    decreases d, s, 0nat,
{
    reveal(lowered::for_each_c);
    reveal(lowered::expr_c);
    match s {
        HStmt::ForEach { var, src, body } => {
            lemma_expr_alike(d, cx, k, st, src);
            let o = lowered::expr_c(d, cx, st, src);
            let cx3 = cx.nested().nested();
            lemma_block_alike(d, cx3, k, o.st, body);
            lemma_block_alike(
                d,
                cx3,
                k,
                St { aliased: o.st.aliased.insert(var.0), ..o.st },
                body,
            );
        },
        _ => {},
    }
}

#[verifier::spinoff_prover]
#[verifier::rlimit(50)]
proof fn lemma_stmt_alike(d: nat, cx: Cx, k: Seq<(u32, BceBound)>, st: St, s: HStmt)
    requires
        stmt_alike(s, cx.bounded, k),
    ensures
        lowered::stmt_c(d, cx, st, s) == lowered::stmt_c(d, cx.knowing(k), st, s),
    decreases d, s, 1nat,
{
    reveal(lowered::stmt_c);
    reveal(lowered::expr_c);
    reveal(lowered::let_c);
    reveal(lowered::assign_c);
    reveal(lowered::return_c);
    reveal(lowered::for_each_c);
    match s {
        HStmt::Let { local, init } => lemma_let_alike(d, cx, k, st, local, init),
        HStmt::Assign { .. } => lemma_assign_alike(d, cx, k, st, s),
        HStmt::ExprStmt(e) => lemma_expr_alike(d, cx, k, st, e),
        HStmt::Return { value, heap_drops } => lemma_return_alike(d, cx, k, st, value, heap_drops@),
        HStmt::If { cond, then_b, else_b } => {
            lemma_expr_alike(d, cx, k, st, cond);
            let c = lowered::expr_c(d, cx, st, cond);
            lemma_block_alike(d, cx.nested(), k, c.st, then_b);
            let t = lowered::block_c(d, cx.nested(), c.st, then_b);
            match else_b {
                Some(b) => lemma_block_alike(d, cx.nested(), k, t.st, b),
                None => {},
            }
        },
        HStmt::While { cond, body } => {
            lemma_expr_alike(d, cx, k, st, cond);
            lemma_block_alike(d, cx.nested(), k, lowered::expr_c(d, cx, st, cond).st, body);
        },
        HStmt::Block(b) => lemma_block_alike(d, cx.nested(), k, st, b),
        HStmt::Unsafe(b) => lemma_block_alike(d, cx.nested(), k, st, b),
        HStmt::Break | HStmt::Continue => {},
        HStmt::Propagate { value } => match value {
            Some(e) => lemma_expr_alike(d, cx, k, st, e),
            None => {},
        },
        HStmt::ForC { init, cond, step, body } => {
            lemma_stmt_alike(d, cx, k, st, *init);
            let i = lowered::stmt_c(d, cx, st, *init);
            lemma_expr_alike(d, cx, k, i.st, cond);
            let c = lowered::expr_c(d, cx, i.st, cond);
            lemma_step_alike(d, cx, k, c.st, *step);
            let p = lowered::step_c(d, cx, c.st, *step);
            let inner = cx.nested().counting(analysis::loop_bound(*init, cond, *step, body));
            lemma_block_alike(
                d,
                inner,
                context::counted(k, analysis::loop_bound(*init, cond, *step, body)),
                p.st,
                body,
            );
        },
        HStmt::ForEach { .. } => lemma_for_each_alike(d, cx, k, st, s),
    }
}

proof fn lemma_expansion_alike(
    d: nat,
    cx: Cx,
    k: Seq<(u32, BceBound)>,
    st: St,
    callee: FuncId,
    args: Vec<HExpr>,
    ty: HType,
)
    requires
        all_alike(args, args@.len(), cx.bounded, k),
    ensures
        lowered::expansion_c(d, cx, st, callee, args, ty) == lowered::expansion_c(
            d,
            cx.knowing(k),
            st,
            callee,
            args,
            ty,
        ),
    decreases d, args, args@.len() + 1,
{
    reveal(lowered::expansion_c);
    match cx.sym.func_from(callee, 0) {
        Some(i) => if d > 0 {
            let g = cx.sym.funcs@[i];
            let st2 = St { seq: st.seq + 1, ..st };
            lemma_exprs_alike(d, cx, k, st2, args, 0, args@.len());
            let a = lowered::exprs_c(d, cx, st2, args, 0, args@.len());
            let tag = lowered::expansion_tag(g, st2.seq);
            let w = !(ty is Unit);
            assert(cx.inside(g, tag, w) == cx.knowing(k).inside(g, tag, w));
        },
        None => {},
    }
}

proof fn lemma_inline_stmts_alike(
    d: nat,
    cx: Cx,
    k: Seq<(u32, BceBound)>,
    st: St,
    v: Vec<HStmt>,
    n: nat,
)
    requires
        stmts_alike(v, n, cx.bounded, k),
    ensures
        lowered::inline_stmts_c(d, cx, st, v, n) == lowered::inline_stmts_c(d, cx.knowing(k), st, v, n),
    decreases d, v, n,
{
    reveal(lowered::inline_stmt_c);
    if 0 < n <= v@.len() {
        lemma_inline_stmts_alike(d, cx, k, st, v, (n - 1) as nat);
        let before = lowered::inline_stmts_c(d, cx, st, v, (n - 1) as nat);
        lemma_inline_stmt_alike(d, cx, k, before.st, v@[n - 1]);
    }
}

#[verifier::spinoff_prover]
#[verifier::rlimit(50)]
proof fn lemma_inline_stmt_alike(d: nat, cx: Cx, k: Seq<(u32, BceBound)>, st: St, s: HStmt)
    requires
        stmt_alike(s, cx.bounded, k),
    ensures
        lowered::inline_stmt_c(d, cx, st, s) == lowered::inline_stmt_c(d, cx.knowing(k), st, s),
    decreases d, s, 2nat,
{
    reveal(lowered::inline_stmt_c);
    reveal(lowered::place_c);
    reveal(lowered::expr_c);
    match s {
        HStmt::Let { init, .. } => {
            lemma_expr_alike(d, cx, k, st, init);
            lemma_place_alike(d, cx, k, lowered::expr_c(d, cx, st, init).st, init);
        },
        HStmt::Assign { place, value, .. } => {
            lemma_place_alike(d, cx, k, st, place);
            let p = lowered::place_c(d, cx, st, place);
            lemma_expr_alike(d, cx, k, p.st, value);
            lemma_place_alike(d, cx, k, lowered::expr_c(d, cx, p.st, value).st, value);
        },
        HStmt::ExprStmt(e) => lemma_expr_alike(d, cx, k, st, e),
        HStmt::Return { value, .. } => match value {
            Some(e) => {
                lemma_expr_alike(d, cx, k, st, e);
                lemma_place_alike(d, cx, k, lowered::expr_c(d, cx, st, e).st, e);
            },
            None => {},
        },
        HStmt::Propagate { value } => match value {
            Some(e) => lemma_expr_alike(d, cx, k, st, e),
            None => {},
        },
        HStmt::If { cond, then_b, else_b } => {
            lemma_expr_alike(d, cx, k, st, cond);
            let c = lowered::expr_c(d, cx, st, cond);
            lemma_inline_stmts_alike(d, cx, k, c.st, then_b.stmts, then_b.stmts@.len());
            let t = lowered::inline_stmts_c(d, cx, c.st, then_b.stmts, then_b.stmts@.len());
            match else_b {
                Some(b) => lemma_inline_stmts_alike(d, cx, k, t.st, b.stmts, b.stmts@.len()),
                None => {},
            }
        },
        HStmt::While { cond, body } => {
            lemma_expr_alike(d, cx, k, st, cond);
            let c = lowered::expr_c(d, cx, st, cond);
            lemma_inline_stmts_alike(d, cx, k, c.st, body.stmts, body.stmts@.len());
        },
        HStmt::Block(b) => lemma_inline_stmts_alike(d, cx, k, st, b.stmts, b.stmts@.len()),
        HStmt::Unsafe(b) => lemma_inline_stmts_alike(d, cx, k, st, b.stmts, b.stmts@.len()),
        HStmt::Break | HStmt::Continue => {},
        HStmt::ForC { init, cond, step, body } => {
            lemma_inline_stmt_alike(d, cx, k, st, *init);
            let i = lowered::inline_stmt_c(d, cx, st, *init);
            lemma_expr_alike(d, cx, k, i.st, cond);
            let c = lowered::expr_c(d, cx, i.st, cond);
            lemma_step_alike(d, cx, k, c.st, *step);
            let p = lowered::step_c(d, cx, c.st, *step);
            let inner = cx.counting(analysis::loop_bound(*init, cond, *step, body));
            lemma_inline_stmts_alike(
                d,
                inner,
                context::counted(k, analysis::loop_bound(*init, cond, *step, body)),
                p.st,
                body.stmts,
                body.stmts@.len(),
            );
        },
        HStmt::ForEach { .. } => {},
    }
}

/// The text of a statement follows from its checks: it is the same in two contexts that
/// differ in the known counters, unless some index of the statement has its check in the one
/// and not in the other. What follows a loop, or stands in its head, is not in its body, and
/// the expansion of an inline function knows none of the counters around it.
pub proof fn law_text_follows_the_checks(d: nat, cx: Cx, k: Seq<(u32, BceBound)>, st: St, s: HStmt)
    requires
        forall|base: HExpr, idx: HExpr, ty: HType, loops: Seq<HStmt>| #[trigger]
            bounds_laws::stmt_stands(s, bounds_laws::element(base, idx, ty), loops) ==> bounds_laws::same_check(
                bounds_laws::in_loops(cx, loops).bounded,
                bounds_laws::in_loops(cx.knowing(k), loops).bounded,
                base,
                idx,
            ),
    ensures
        lowered::stmt_c(d, cx, st, s) == lowered::stmt_c(d, cx.knowing(k), st, s),
        lowered::inline_stmt_c(d, cx, st, s) == lowered::inline_stmt_c(d, cx.knowing(k), st, s),
{
    if !stmt_alike(s, cx.bounded, k) {
        let (part, loops) = lemma_unlike_stmt(s, cx.bounded, k);
        bounds_laws::lemma_within(cx, loops);
        bounds_laws::lemma_within(cx.knowing(k), loops);
        match part.kind {
            HExprKind::Index { base, idx } => {
                assert(part == bounds_laws::element(*base, *idx, part.ty));
            },
            _ => {},
        }
    }
    lemma_stmt_alike(d, cx, k, st, s);
    lemma_inline_stmt_alike(d, cx, k, st, s);
}

/// A known counter leaves no mark on a statement that holds no index which it bounds.
pub proof fn law_counters_show_only_in_their_indices(d: nat, cx: Cx, st: St, s: HStmt)
    requires
        forall|base: HExpr, idx: HExpr, ty: HType, loops: Seq<HStmt>| #[trigger]
            bounds_laws::stmt_stands(s, bounds_laws::element(base, idx, ty), loops) ==> !bounds_laws::some_bounds(cx.bounded, base, idx),
    ensures
        lowered::stmt_c(d, cx, st, s) == lowered::stmt_c(d, cx.knowing(Seq::empty()), st, s),
        lowered::inline_stmt_c(d, cx, st, s) == lowered::inline_stmt_c(d, cx.knowing(Seq::empty()), st, s),
{
    let none = Seq::<(u32, BceBound)>::empty();
    assert forall|base: HExpr, idx: HExpr, ty: HType, loops: Seq<HStmt>| #[trigger]
        bounds_laws::stmt_stands(s, bounds_laws::element(base, idx, ty), loops) implies bounds_laws::same_check(
        bounds_laws::in_loops(cx, loops).bounded,
        bounds_laws::in_loops(cx.knowing(none), loops).bounded,
        base,
        idx,
    ) by {
        bounds_laws::lemma_within(cx, loops);
        bounds_laws::lemma_within(cx.knowing(none), loops);
        bounds_laws::lemma_counters_follow(cx.bounded, loops);
        if !bounds_laws::same_check(
            bounds_laws::in_loops(cx, loops).bounded,
            bounds_laws::in_loops(cx.knowing(none), loops).bounded,
            base,
            idx,
        ) {
            bounds_laws::lemma_reason(cx.bounded, bounds_laws::loops_known(none, loops), base, idx);
        }
    }
    law_text_follows_the_checks(d, cx, none, st, s);
}

} // verus!
