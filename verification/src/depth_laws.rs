//! How deep inline calls can nest: a body that can be lowered within any bound can be
//! lowered within the number of functions.
use vstd::prelude::*;

use crate::builtins;
use crate::frames;
use crate::functions;
use crate::hir::{FuncId, HBlock, HExpr, HExprKind, HFunc, HMatchArm, HStmt, HType, SymTab};
use crate::module;
use crate::validity;

verus! {

/// The body of the function can be expanded within the bound `d`.
pub open spec fn body_ok(d: nat, sym: SymTab, i: int) -> bool {
    let g = sym.funcs@[i];
    validity::stmts_ok(d, sym, g, true, g.body.stmts, g.body.stmts@.len())
}

/// Every body that can be expanded within `a` can be within `b`.
pub open spec fn no_deeper(sym: SymTab, a: nat, b: nat) -> bool {
    forall|i: int| 0 <= i < sym.funcs@.len() && #[trigger] body_ok(a, sym, i) ==> body_ok(b, sym, i)
}

/// No body can be expanded within the bound `d`.
pub open spec fn none_ok(sym: SymTab, d: nat) -> bool {
    forall|i: int| 0 <= i < sym.funcs@.len() ==> !#[trigger] body_ok(d, sym, i)
}

/// What holds of pieces within the bound `x` holds within `y`: what may be expanded under
/// `x` may be under `y`, or there is nothing to expand.
pub open spec fn carries(sym: SymTab, x: nat, y: nat) -> bool {
    ||| x == 0
    ||| y > 0 && no_deeper(sym, (x - 1) as nat, (y - 1) as nat)
    ||| none_ok(sym, (x - 1) as nat)
}

proof fn lemma_func_in_range(sym: SymTab, id: FuncId, from: nat)
    ensures
        match sym.func_from(id, from) {
            Some(i) => 0 <= i < sym.funcs@.len(),
            None => true,
        },
    decreases sym.funcs@.len() - from,
{
    if from < sym.funcs@.len() && sym.funcs@[from as int].id != id {
        lemma_func_in_range(sym, id, from + 1);
    }
}

#[verifier::spinoff_prover]
#[verifier::rlimit(50)]
proof fn lemma_expr_carries(x: nat, y: nat, sym: SymTab, f: HFunc, spliced: bool, e: HExpr)
    requires
        carries(sym, x, y),
        validity::expr_ok(x, sym, f, spliced, e),
    ensures
        validity::expr_ok(y, sym, f, spliced, e),
    decreases e, 0nat,
{
    reveal(validity::expr_ok);
    match e.kind {
        HExprKind::CallIndirect { callee, args } => {
            lemma_expr_carries(x, y, sym, f, spliced, *callee);
            lemma_exprs_carry(x, y, sym, f, spliced, args, 0, args@.len());
        },
        HExprKind::InlineCall { callee, args } => {
            lemma_func_in_range(sym, callee, 0);
            match sym.func_from(callee, 0) {
                Some(i) => {
                    lemma_exprs_carry(x, y, sym, f, spliced, args, 0, args@.len());
                    assert(validity::expansion_ok((x - 1) as nat, sym, sym.funcs@[i], e.ty));
                    assert(body_ok((x - 1) as nat, sym, i));
                    assert(y > 0 && body_ok((y - 1) as nat, sym, i));
                    assert(validity::expansion_ok((y - 1) as nat, sym, sym.funcs@[i], e.ty));
                },
                None => {},
            }
        },
        HExprKind::Transfer(a) => lemma_expr_carries(x, y, sym, f, spliced, *a),
        HExprKind::EnumTag(a) => lemma_expr_carries(x, y, sym, f, spliced, *a),
        HExprKind::SliceLen(a) => lemma_expr_carries(x, y, sym, f, spliced, *a),
        HExprKind::Closure { env_struct, env_values, .. } => {
            let n = validity::captured(sym.the_struct(env_struct), env_values@.len());
            lemma_exprs_carry(x, y, sym, f, spliced, env_values, 0, n);
        },
        HExprKind::Bin { lhs, rhs, .. } => {
            lemma_expr_carries(x, y, sym, f, spliced, *lhs);
            lemma_expr_carries(x, y, sym, f, spliced, *rhs);
        },
        HExprKind::Un { expr, .. } => lemma_expr_carries(x, y, sym, f, spliced, *expr),
        HExprKind::Unwrap { expr, .. } => lemma_expr_carries(x, y, sym, f, spliced, *expr),
        HExprKind::AddrOfRef { place, .. } => lemma_expr_carries(x, y, sym, f, spliced, *place),
        HExprKind::Field { base, .. } => lemma_expr_carries(x, y, sym, f, spliced, *base),
        HExprKind::Index { base, idx } => {
            lemma_expr_carries(x, y, sym, f, spliced, *base);
            lemma_expr_carries(x, y, sym, f, spliced, *idx);
        },
        HExprKind::Call { callee, args } => {
            lemma_call_carries(x, y, sym, f, spliced, callee, args);
        },
        HExprKind::Cast { expr, .. } => lemma_expr_carries(x, y, sym, f, spliced, *expr),
        HExprKind::CheckedCast { expr, .. } => lemma_expr_carries(x, y, sym, f, spliced, *expr),
        HExprKind::Struct { id, fields } => lemma_values_carry(
            x,
            y,
            sym,
            f,
            spliced,
            fields,
            sym.the_struct(id).fields@.len(),
        ),
        HExprKind::ArrayLit(es) => lemma_exprs_carry(x, y, sym, f, spliced, es, 0, es@.len()),
        HExprKind::DropWrite(a) => lemma_expr_carries(x, y, sym, f, spliced, *a),
        HExprKind::DerefRef(a) => lemma_expr_carries(x, y, sym, f, spliced, *a),
        HExprKind::HeapAlloc(a) => match a.ty {
            HType::Array { .. } => match a.kind {
                HExprKind::ArrayLit(es) => lemma_exprs_carry(
                    x,
                    y,
                    sym,
                    f,
                    spliced,
                    es,
                    0,
                    es@.len(),
                ),
                _ => lemma_expr_carries(x, y, sym, f, spliced, *a),
            },
            _ => lemma_expr_carries(x, y, sym, f, spliced, *a),
        },
        HExprKind::Free(a) => lemma_expr_carries(x, y, sym, f, spliced, *a),
        HExprKind::Match { scrutinee, arms, .. } => {
            lemma_expr_carries(x, y, sym, f, spliced, *scrutinee);
            lemma_arms_carry(x, y, sym, f, spliced, arms, arms@.len());
        },
        HExprKind::VariantCtor { enum_id, variant, fields } => lemma_values_carry(
            x,
            y,
            sym,
            f,
            spliced,
            fields,
            sym.the_variant(enum_id, variant).fields@.len(),
        ),
        HExprKind::ArrayToSlice { base, .. } => lemma_expr_carries(x, y, sym, f, spliced, *base),
        _ => {},
    }
}

proof fn lemma_exprs_carry(
    x: nat,
    y: nat,
    sym: SymTab,
    f: HFunc,
    spliced: bool,
    v: Vec<HExpr>,
    from: nat,
    n: nat,
)
    requires
        carries(sym, x, y),
        validity::exprs_ok(x, sym, f, spliced, v, from, n),
    ensures
        validity::exprs_ok(y, sym, f, spliced, v, from, n),
    decreases v, n,
{
    reveal(validity::expr_ok);
    if from < n <= v@.len() {
        lemma_exprs_carry(x, y, sym, f, spliced, v, from, (n - 1) as nat);
        lemma_expr_carries(x, y, sym, f, spliced, v@[n - 1]);
    }
}

proof fn lemma_values_carry(
    x: nat,
    y: nat,
    sym: SymTab,
    f: HFunc,
    spliced: bool,
    fields: Vec<(usize, HExpr)>,
    n: nat,
)
    requires
        carries(sym, x, y),
        validity::values_ok(x, sym, f, spliced, fields, n),
    ensures
        validity::values_ok(y, sym, f, spliced, fields, n),
    decreases fields, n,
{
    reveal(validity::expr_ok);
    if n > 0 {
        lemma_values_carry(x, y, sym, f, spliced, fields, (n - 1) as nat);
        frames::lemma_value_in_range(fields@, n - 1, 0);
        match frames::value_from(fields@, n - 1, 0) {
            Some(p) => lemma_expr_carries(x, y, sym, f, spliced, fields@[p].1),
            None => {},
        }
    }
}

proof fn lemma_call_carries(
    x: nat,
    y: nat,
    sym: SymTab,
    f: HFunc,
    spliced: bool,
    callee: FuncId,
    args: Vec<HExpr>,
)
    requires
        carries(sym, x, y),
        validity::call_ok(x, sym, f, spliced, callee, args),
    ensures
        validity::call_ok(y, sym, f, spliced, callee, args),
    decreases args, args@.len() + 3,
{
    reveal(validity::expr_ok);
    match builtins::builtin_of(callee) {
        Some(b) => lemma_exprs_carry(
            x,
            y,
            sym,
            f,
            spliced,
            args,
            0,
            builtins::evaluated(b, args@.len()),
        ),
        None => if validity::dispatched(args@) {
            match args@[0].kind {
                HExprKind::AddrOfRef { place, .. } => {
                    lemma_expr_carries(x, y, sym, f, spliced, *place);
                },
                _ => lemma_expr_carries(x, y, sym, f, spliced, args@[0]),
            }
            lemma_exprs_carry(x, y, sym, f, spliced, args, 1, args@.len());
        } else {
            lemma_exprs_carry(x, y, sym, f, spliced, args, 0, args@.len());
        },
    }
}

proof fn lemma_arms_carry(
    x: nat,
    y: nat,
    sym: SymTab,
    f: HFunc,
    spliced: bool,
    arms: Vec<HMatchArm>,
    n: nat,
)
    requires
        carries(sym, x, y),
        validity::arms_ok(x, sym, f, spliced, arms, n),
    ensures
        validity::arms_ok(y, sym, f, spliced, arms, n),
    decreases arms, n,
{
    if 0 < n <= arms@.len() {
        lemma_arms_carry(x, y, sym, f, spliced, arms, (n - 1) as nat);
        lemma_arm_carries(x, y, sym, f, spliced, arms@[n - 1]);
    }
}

proof fn lemma_arm_carries(
    x: nat,
    y: nat,
    sym: SymTab,
    f: HFunc,
    spliced: bool,
    a: HMatchArm,
)
    requires
        carries(sym, x, y),
        validity::arm_ok(x, sym, f, spliced, a),
    ensures
        validity::arm_ok(y, sym, f, spliced, a),
    decreases a, 0nat,
{
    reveal(validity::expr_ok);
    match a.guard {
        Some(g) => lemma_expr_carries(x, y, sym, f, spliced, g),
        None => {},
    }
    lemma_stmts_carry(x, y, sym, f, spliced, a.body.stmts, a.body.stmts@.len());
    match a.value {
        Some(v) => lemma_expr_carries(x, y, sym, f, spliced, v),
        None => {},
    }
}

proof fn lemma_stmts_carry(
    x: nat,
    y: nat,
    sym: SymTab,
    f: HFunc,
    spliced: bool,
    v: Vec<HStmt>,
    n: nat,
)
    requires
        carries(sym, x, y),
        validity::stmts_ok(x, sym, f, spliced, v, n),
    ensures
        validity::stmts_ok(y, sym, f, spliced, v, n),
    decreases v, n,
{
    reveal(validity::stmt_ok);
    reveal(validity::inline_stmt_ok);
    if 0 < n <= v@.len() {
        lemma_stmts_carry(x, y, sym, f, spliced, v, (n - 1) as nat);
        if spliced {
            lemma_inline_stmt_carries(x, y, sym, f, v@[n - 1]);
        } else {
            lemma_stmt_carries(x, y, sym, f, v@[n - 1]);
        }
    }
}

proof fn lemma_block_carries(x: nat, y: nat, sym: SymTab, f: HFunc, b: HBlock)
    requires
        carries(sym, x, y),
        validity::block_ok(x, sym, f, b),
    ensures
        validity::block_ok(y, sym, f, b),
    decreases b, 0nat,
{
    lemma_stmts_carry(x, y, sym, f, false, b.stmts, b.stmts@.len());
}

proof fn lemma_step_carries(x: nat, y: nat, sym: SymTab, f: HFunc, spliced: bool, step: HStmt)
    requires
        carries(sym, x, y),
        validity::step_ok(x, sym, f, spliced, step),
    ensures
        validity::step_ok(y, sym, f, spliced, step),
    decreases step, 0nat,
{
    reveal(validity::expr_ok);
    match step {
        HStmt::Assign { place, value, .. } => {
            lemma_expr_carries(x, y, sym, f, spliced, place);
            lemma_expr_carries(x, y, sym, f, spliced, value);
        },
        _ => {},
    }
}

#[verifier::spinoff_prover]
#[verifier::rlimit(50)]
proof fn lemma_stmt_carries(x: nat, y: nat, sym: SymTab, f: HFunc, s: HStmt)
    requires
        carries(sym, x, y),
        validity::stmt_ok(x, sym, f, s),
    ensures
        validity::stmt_ok(y, sym, f, s),
    decreases s, 0nat,
{
    reveal(validity::stmt_ok);
    reveal(validity::expr_ok);
    match s {
        HStmt::Let { init, .. } => lemma_expr_carries(x, y, sym, f, false, init),
        HStmt::Assign { place, value, .. } => {
            lemma_expr_carries(x, y, sym, f, false, place);
            lemma_expr_carries(x, y, sym, f, false, value);
        },
        HStmt::ExprStmt(e) => lemma_expr_carries(x, y, sym, f, false, e),
        HStmt::Return { value, .. } => match value {
            Some(e) => lemma_expr_carries(x, y, sym, f, false, e),
            None => {},
        },
        HStmt::If { cond, then_b, else_b } => {
            lemma_expr_carries(x, y, sym, f, false, cond);
            lemma_block_carries(x, y, sym, f, then_b);
            match else_b {
                Some(b) => lemma_block_carries(x, y, sym, f, b),
                None => {},
            }
        },
        HStmt::While { cond, body } => {
            lemma_expr_carries(x, y, sym, f, false, cond);
            lemma_block_carries(x, y, sym, f, body);
        },
        HStmt::Block(b) => lemma_block_carries(x, y, sym, f, b),
        HStmt::Unsafe(b) => lemma_block_carries(x, y, sym, f, b),
        HStmt::Break | HStmt::Continue => {},
        HStmt::Propagate { value } => match value {
            Some(e) => lemma_expr_carries(x, y, sym, f, false, e),
            None => {},
        },
        HStmt::ForC { init, cond, step, body } => {
            lemma_stmt_carries(x, y, sym, f, *init);
            lemma_expr_carries(x, y, sym, f, false, cond);
            lemma_step_carries(x, y, sym, f, false, *step);
            lemma_block_carries(x, y, sym, f, body);
        },
        HStmt::ForEach { src, body, .. } => {
            lemma_expr_carries(x, y, sym, f, false, src);
            lemma_block_carries(x, y, sym, f, body);
        },
    }
}

#[verifier::spinoff_prover]
#[verifier::rlimit(50)]
proof fn lemma_inline_stmt_carries(x: nat, y: nat, sym: SymTab, f: HFunc, s: HStmt)
    requires
        carries(sym, x, y),
        validity::inline_stmt_ok(x, sym, f, s),
    ensures
        validity::inline_stmt_ok(y, sym, f, s),
    decreases s, 0nat,
{
    reveal(validity::inline_stmt_ok);
    reveal(validity::expr_ok);
    match s {
        HStmt::Let { init, .. } => lemma_expr_carries(x, y, sym, f, true, init),
        HStmt::Assign { place, value, .. } => {
            lemma_expr_carries(x, y, sym, f, true, place);
            lemma_expr_carries(x, y, sym, f, true, value);
        },
        HStmt::ExprStmt(e) => lemma_expr_carries(x, y, sym, f, true, e),
        HStmt::Return { value, .. } => match value {
            Some(e) => lemma_expr_carries(x, y, sym, f, true, e),
            None => {},
        },
        HStmt::Propagate { value } => match value {
            Some(e) => lemma_expr_carries(x, y, sym, f, true, e),
            None => {},
        },
        HStmt::If { cond, then_b, else_b } => {
            lemma_expr_carries(x, y, sym, f, true, cond);
            lemma_stmts_carry(x, y, sym, f, true, then_b.stmts, then_b.stmts@.len());
            match else_b {
                Some(b) => lemma_stmts_carry(x, y, sym, f, true, b.stmts, b.stmts@.len()),
                None => {},
            }
        },
        HStmt::While { cond, body } => {
            lemma_expr_carries(x, y, sym, f, true, cond);
            lemma_stmts_carry(x, y, sym, f, true, body.stmts, body.stmts@.len());
        },
        HStmt::Block(b) => lemma_stmts_carry(x, y, sym, f, true, b.stmts, b.stmts@.len()),
        HStmt::Unsafe(b) => lemma_stmts_carry(x, y, sym, f, true, b.stmts, b.stmts@.len()),
        HStmt::Break | HStmt::Continue => {},
        HStmt::ForC { init, cond, step, body } => {
            lemma_inline_stmt_carries(x, y, sym, f, *init);
            lemma_expr_carries(x, y, sym, f, true, cond);
            lemma_step_carries(x, y, sym, f, true, *step);
            lemma_stmts_carry(x, y, sym, f, true, body.stmts, body.stmts@.len());
        },
        HStmt::ForEach { .. } => {},
    }
}

proof fn lemma_bodies_carry(sym: SymTab, x: nat, y: nat)
    requires
        carries(sym, x, y),
    ensures
        no_deeper(sym, x, y),
{
    assert forall|i: int| 0 <= i < sym.funcs@.len() && #[trigger] body_ok(x, sym, i) implies body_ok(
        y,
        sym,
        i,
    ) by {
        let g = sym.funcs@[i];
        lemma_stmts_carry(x, y, sym, g, true, g.body.stmts, g.body.stmts@.len());
    }
}

/// A wider bound admits no fewer bodies.
proof fn lemma_bound_grows(sym: SymTab, a: nat, b: nat)
    requires
        a <= b,
    ensures
        no_deeper(sym, a, b),
    decreases a,
{
    if a > 0 {
        lemma_bound_grows(sym, (a - 1) as nat, (b - 1) as nat);
    }
    lemma_bodies_carry(sym, a, b);
}

/// One more level admits no more bodies.
spec fn steady(sym: SymTab, d: nat) -> bool {
    no_deeper(sym, d + 1, d)
}

proof fn lemma_steady_stays(sym: SymTab, a: nat, b: nat)
    requires
        steady(sym, a),
        a <= b,
    ensures
        steady(sym, b),
        no_deeper(sym, b, a),
    decreases b,
{
    if a < b {
        lemma_steady_stays(sym, a, (b - 1) as nat);
        lemma_bodies_carry(sym, b + 1, b);
        assert forall|i: int| 0 <= i < sym.funcs@.len() && #[trigger] body_ok(b, sym, i) implies body_ok(
            a,
            sym,
            i,
        ) by {
            assert(body_ok((b - 1) as nat, sym, i));
        }
    }
}

/// How many of the first `n` bodies can be expanded within `d`.
spec fn count_ok(sym: SymTab, d: nat, n: nat) -> nat
    decreases n,
{
    if n == 0 {
        0
    } else {
        count_ok(sym, d, (n - 1) as nat) + (if body_ok(d, sym, n - 1) { 1nat } else { 0nat })
    }
}

proof fn lemma_count(sym: SymTab, d: nat, n: nat)
    requires
        n <= sym.funcs@.len(),
    ensures
        count_ok(sym, d, n) <= n,
        count_ok(sym, d, n) <= count_ok(sym, d + 1, n),
        (exists|i: int| 0 <= i < n && #[trigger] body_ok(d + 1, sym, i) && !body_ok(d, sym, i))
            ==> count_ok(sym, d, n) < count_ok(sym, d + 1, n),
    decreases n,
{
    lemma_bound_grows(sym, d, d + 1);
    if n > 0 {
        lemma_count(sym, d, (n - 1) as nat);
        if exists|i: int| 0 <= i < n && #[trigger] body_ok(d + 1, sym, i) && !body_ok(d, sym, i) {
            let i = choose|i: int|
                0 <= i < n && #[trigger] body_ok(d + 1, sym, i) && !body_ok(d, sym, i);
            if i < n - 1 {
                assert(body_ok(d + 1, sym, i) && !body_ok(d, sym, i));
            }
        }
    }
}

proof fn lemma_none_counted(sym: SymTab, d: nat, n: nat)
    requires
        n <= sym.funcs@.len(),
        count_ok(sym, d, n) == 0,
    ensures
        forall|i: int| 0 <= i < n ==> !#[trigger] body_ok(d, sym, i),
    decreases n,
{
    if n > 0 {
        lemma_none_counted(sym, d, (n - 1) as nat);
    }
}

proof fn lemma_all_counted(sym: SymTab, d: nat, n: nat)
    requires
        n <= sym.funcs@.len(),
        count_ok(sym, d, n) >= n,
    ensures
        forall|i: int| 0 <= i < n ==> #[trigger] body_ok(d, sym, i),
    decreases n,
{
    if n > 0 {
        lemma_count(sym, d, (n - 1) as nat);
        lemma_all_counted(sym, d, (n - 1) as nat);
    }
}

/// Until it is steady, every level admits one more body at least.
proof fn lemma_levels(sym: SymTab, d: nat)
    ensures
        steady(sym, d) || count_ok(sym, d, sym.funcs@.len()) > d,
    decreases d,
{
    let n = sym.funcs@.len();
    if d == 0 {
        if count_ok(sym, 0, n) == 0 {
            lemma_none_counted(sym, 0, n);
            lemma_bodies_carry(sym, 1, 0);
        }
    } else {
        lemma_levels(sym, (d - 1) as nat);
        if steady(sym, (d - 1) as nat) {
            lemma_steady_stays(sym, (d - 1) as nat, d);
        } else {
            lemma_count(sym, (d - 1) as nat, n);
            let i = choose|i: int|
                0 <= i < n && #[trigger] body_ok(d, sym, i) && !body_ok((d - 1) as nat, sym, i);
            assert(body_ok(d, sym, i));
        }
    }
}

/// No bound admits a body that one below the number of functions does not.
proof fn lemma_widest(sym: SymTab, d: nat)
    requires
        sym.funcs@.len() > 0,
    ensures
        no_deeper(sym, d, (sym.funcs@.len() - 1) as nat),
{
    let last = (sym.funcs@.len() - 1) as nat;
    lemma_levels(sym, last);
    if steady(sym, last) {
        if d <= last {
            lemma_bound_grows(sym, d, last);
        } else {
            lemma_steady_stays(sym, last, d);
        }
    } else {
        lemma_all_counted(sym, last, sym.funcs@.len());
    }
}

/// A function that can be written with inline calls nested to some depth can be written
/// within the number of functions: only a call that expands into itself needs more.
pub proof fn law_depth_is_enough(sym: SymTab, d: nat, f: HFunc)
    requires
        sym.funcs@.len() > 0,
        functions::func_ok(d, sym, f),
    ensures
        functions::func_ok(module::max_depth(sym), sym, f),
{
    if d > 0 {
        lemma_widest(sym, (d - 1) as nat);
    }
    if !sym.the_sig(f.id).is_inline {
        lemma_block_carries(d, module::max_depth(sym), sym, f, f.body);
    }
}

} // verus!
