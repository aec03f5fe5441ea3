//! What the analyses find is what stands in the code, at any depth.
use vstd::prelude::*;

use crate::analysis;
use crate::analysis::Mention;
use crate::hir::{HBlock, HExpr, HExprKind, HMatchArm, HStmt, LocalId};
use crate::scan_laws;

verus! {

/// The statement `part` stands in the expression `e`, in an arm of a match.
pub open spec fn holds_stmt(e: HExpr, part: HStmt) -> bool
    decreases e, 0nat,
{
    match e.kind {
        HExprKind::Bin { lhs, rhs, .. } => holds_stmt(*lhs, part) || holds_stmt(*rhs, part),
        HExprKind::Un { expr, .. } => holds_stmt(*expr, part),
        HExprKind::Unwrap { expr, .. } => holds_stmt(*expr, part),
        HExprKind::AddrOfRef { place, .. } => holds_stmt(*place, part),
        HExprKind::Field { base, .. } => holds_stmt(*base, part),
        HExprKind::Index { base, idx } => holds_stmt(*base, part) || holds_stmt(*idx, part),
        HExprKind::Call { args, .. } => some_holds(args, args@.len(), part),
        HExprKind::Cast { expr, .. } => holds_stmt(*expr, part),
        HExprKind::CheckedCast { expr, .. } => holds_stmt(*expr, part),
        HExprKind::DropWrite(x) => holds_stmt(*x, part),
        HExprKind::ArrayToSlice { base, .. } => holds_stmt(*base, part),
        HExprKind::DerefRef(x) => holds_stmt(*x, part),
        HExprKind::HeapAlloc(x) => holds_stmt(*x, part),
        HExprKind::Free(x) => holds_stmt(*x, part),
        HExprKind::CallIndirect { callee, args } => holds_stmt(*callee, part) || some_holds(
            args,
            args@.len(),
            part,
        ),
        HExprKind::InlineCall { args, .. } => some_holds(args, args@.len(), part),
        HExprKind::Closure { env_values, .. } => some_holds(env_values, env_values@.len(), part),
        HExprKind::Transfer(x) => holds_stmt(*x, part),
        HExprKind::SliceLen(x) => holds_stmt(*x, part),
        HExprKind::EnumTag(x) => holds_stmt(*x, part),
        HExprKind::VariantCtor { fields, .. } => field_holds(fields, fields@.len(), part),
        HExprKind::Match { scrutinee, arms, .. } => holds_stmt(*scrutinee, part) || arm_holds(
            arms,
            arms@.len(),
            part,
        ),
        HExprKind::Struct { fields, .. } => field_holds(fields, fields@.len(), part),
        HExprKind::ArrayLit(es) => some_holds(es, es@.len(), part),
        _ => false,
    }
}

/// The statement stands in one of the first `k` expressions.
pub open spec fn some_holds(v: Vec<HExpr>, k: nat, part: HStmt) -> bool
    decreases v, k,
{
    0 < k <= v@.len() && (some_holds(v, (k - 1) as nat, part) || holds_stmt(v@[k - 1], part))
}

/// The statement stands in one of the first `k` field values.
pub open spec fn field_holds(v: Vec<(usize, HExpr)>, k: nat, part: HStmt) -> bool
    decreases v, k,
{
    0 < k <= v@.len() && (field_holds(v, (k - 1) as nat, part) || holds_stmt(v@[k - 1].1, part))
}

/// The statement stands in a guard, the statements or the value of one of the first `k`
/// arms.
pub open spec fn arm_holds(v: Vec<HMatchArm>, k: nat, part: HStmt) -> bool
    decreases v, k,
{
    0 < k <= v@.len() && {
        let a = v@[k - 1];
        ||| arm_holds(v, (k - 1) as nat, part)
        ||| (match a.guard {
            Some(g) => holds_stmt(g, part),
            None => false,
        })
        ||| stmts_hold(a.body.stmts, a.body.stmts@.len(), part)
        ||| (match a.value {
            Some(x) => holds_stmt(x, part),
            None => false,
        })
    }
}

/// The statement `part` is the statement `s` or stands in it, at any depth.
pub open spec fn stmt_holds(s: HStmt, part: HStmt) -> bool
    decreases s, 0nat,
{
    s == part || (match s {
        HStmt::Let { init, .. } => holds_stmt(init, part),
        HStmt::Assign { place, value, .. } => holds_stmt(place, part) || holds_stmt(value, part),
        HStmt::ExprStmt(e) => holds_stmt(e, part),
        HStmt::Return { value, .. } => match value {
            Some(e) => holds_stmt(e, part),
            None => false,
        },
        HStmt::If { cond, then_b, else_b } => {
            ||| holds_stmt(cond, part)
            ||| stmts_hold(then_b.stmts, then_b.stmts@.len(), part)
            ||| (match else_b {
                Some(b) => stmts_hold(b.stmts, b.stmts@.len(), part),
                None => false,
            })
        },
        HStmt::While { cond, body } => holds_stmt(cond, part) || stmts_hold(
            body.stmts,
            body.stmts@.len(),
            part,
        ),
        HStmt::Block(b) => stmts_hold(b.stmts, b.stmts@.len(), part),
        HStmt::Unsafe(b) => stmts_hold(b.stmts, b.stmts@.len(), part),
        HStmt::Break | HStmt::Continue => false,
        HStmt::ForC { init, cond, step, body } => {
            ||| stmt_holds(*init, part)
            ||| holds_stmt(cond, part)
            ||| stmt_holds(*step, part)
            ||| stmts_hold(body.stmts, body.stmts@.len(), part)
        },
        HStmt::ForEach { src, body, .. } => holds_stmt(src, part) || stmts_hold(
            body.stmts,
            body.stmts@.len(),
            part,
        ),
        HStmt::Propagate { value } => match value {
            Some(e) => holds_stmt(e, part),
            None => false,
        },
    })
}

/// The statement stands in one of the first `k` statements.
pub open spec fn stmts_hold(v: Vec<HStmt>, k: nat, part: HStmt) -> bool
    decreases v, k,
{
    0 < k <= v@.len() && (stmts_hold(v, (k - 1) as nat, part) || stmt_holds(v@[k - 1], part))
}

/// The place is part of what `whole` leads to: `whole` itself, or a field, element or target
/// on the way from the place to it.
pub open spec fn lies_in(place: HExpr, whole: HExpr) -> bool
    decreases place,
{
    place == whole || (match place.kind {
        HExprKind::Field { base, .. } => lies_in(*base, whole),
        HExprKind::Index { base, .. } => lies_in(*base, whole),
        HExprKind::Unwrap { expr, .. } => lies_in(*expr, whole),
        HExprKind::DerefRef(x) => lies_in(*x, whole),
        _ => false,
    })
}

/// The place belongs to the local with number `iv`.
pub open spec fn rooted(place: HExpr, iv: u32) -> bool {
    exists|x: HExpr| #[trigger] lies_in(place, x) && x.kind == HExprKind::Local(LocalId(iv))
}

/// The root of a place is the local that it belongs to.
pub proof fn law_root_is_the_local(place: HExpr, iv: u32)
    ensures
        analysis::root_of(place) == Some(iv) <==> rooted(place, iv),
{
    lemma_root(place, iv);
}

proof fn lemma_root(place: HExpr, iv: u32)
    ensures
        analysis::root_of(place) == Some(iv) <==> rooted(place, iv),
    decreases place,
{
    let base = match place.kind {
        HExprKind::Field { base, .. } => Some(*base),
        HExprKind::Index { base, .. } => Some(*base),
        HExprKind::Unwrap { expr, .. } => Some(*expr),
        HExprKind::DerefRef(x) => Some(*x),
        _ => None,
    };
    match base {
        Some(b) => {
            lemma_root(b, iv);
            if rooted(b, iv) {
                let x = choose|x: HExpr| #[trigger]
                    lies_in(b, x) && x.kind == HExprKind::Local(LocalId(iv));
                assert(lies_in(place, x));
            }
            if rooted(place, iv) {
                let x = choose|x: HExpr| #[trigger]
                    lies_in(place, x) && x.kind == HExprKind::Local(LocalId(iv));
                assert(lies_in(b, x));
            }
        },
        None => {
            if analysis::root_of(place) == Some(iv) {
                assert(lies_in(place, place));
            }
            if rooted(place, iv) {
                let x = choose|x: HExpr| #[trigger]
                    lies_in(place, x) && x.kind == HExprKind::Local(LocalId(iv));
                assert(x == place);
            }
        },
    }
}

/// The statement is an assignment to a place of the local.
pub open spec fn assigns_to(s: HStmt, iv: u32) -> bool {
    match s {
        HStmt::Assign { place, .. } => rooted(place, iv),
        _ => false,
    }
}

/// The expression is a mutable borrow of a place of the local.
pub open spec fn lends(e: HExpr, iv: u32) -> bool {
    match e.kind {
        HExprKind::AddrOfRef { mutable, place } => mutable && rooted(*place, iv),
        _ => false,
    }
}

/// How a local is changed.
pub enum Change {
    Assigned(HStmt),
    Lent(HExpr),
}

proof fn lemma_no_assignment(e: HExpr, part: HStmt, iv: u32)
    requires
        !analysis::expr_mutates(e, iv),
        holds_stmt(e, part),
    ensures
        !assigns_to(part, iv),
    decreases e, 0nat,
{
    match e.kind {
        HExprKind::Bin { lhs, rhs, .. } => {
            if holds_stmt(*lhs, part) {
                lemma_no_assignment(*lhs, part, iv);
            } else if holds_stmt(*rhs, part) {
                lemma_no_assignment(*rhs, part, iv);
            }
        },
        HExprKind::Un { expr, .. } => {
            if holds_stmt(*expr, part) {
                lemma_no_assignment(*expr, part, iv);
            }
        },
        HExprKind::Unwrap { expr, .. } => {
            if holds_stmt(*expr, part) {
                lemma_no_assignment(*expr, part, iv);
            }
        },
        HExprKind::AddrOfRef { place, .. } => {
            if holds_stmt(*place, part) {
                lemma_no_assignment(*place, part, iv);
            }
        },
        HExprKind::Field { base, .. } => {
            if holds_stmt(*base, part) {
                lemma_no_assignment(*base, part, iv);
            }
        },
        HExprKind::Index { base, idx } => {
            if holds_stmt(*base, part) {
                lemma_no_assignment(*base, part, iv);
            } else if holds_stmt(*idx, part) {
                lemma_no_assignment(*idx, part, iv);
            }
        },
        HExprKind::Call { args, .. } => {
            if some_holds(args, args@.len(), part) {
                lemma_no_assignment_all(args, args@.len(), part, iv);
            }
        },
        HExprKind::Cast { expr, .. } => {
            if holds_stmt(*expr, part) {
                lemma_no_assignment(*expr, part, iv);
            }
        },
        HExprKind::CheckedCast { expr, .. } => {
            if holds_stmt(*expr, part) {
                lemma_no_assignment(*expr, part, iv);
            }
        },
        HExprKind::DropWrite(a) => {
            if holds_stmt(*a, part) {
                lemma_no_assignment(*a, part, iv);
            }
        },
        HExprKind::ArrayToSlice { base, .. } => {
            if holds_stmt(*base, part) {
                lemma_no_assignment(*base, part, iv);
            }
        },
        HExprKind::DerefRef(a) => {
            if holds_stmt(*a, part) {
                lemma_no_assignment(*a, part, iv);
            }
        },
        HExprKind::HeapAlloc(a) => {
            if holds_stmt(*a, part) {
                lemma_no_assignment(*a, part, iv);
            }
        },
        HExprKind::Free(a) => {
            if holds_stmt(*a, part) {
                lemma_no_assignment(*a, part, iv);
            }
        },
        HExprKind::CallIndirect { callee, args } => {
            if holds_stmt(*callee, part) {
                lemma_no_assignment(*callee, part, iv);
            } else if some_holds(args, args@.len(), part) {
                lemma_no_assignment_all(args, args@.len(), part, iv);
            }
        },
        HExprKind::InlineCall { args, .. } => {
            if some_holds(args, args@.len(), part) {
                lemma_no_assignment_all(args, args@.len(), part, iv);
            }
        },
        HExprKind::Closure { env_values, .. } => {
            if some_holds(env_values, env_values@.len(), part) {
                lemma_no_assignment_all(env_values, env_values@.len(), part, iv);
            }
        },
        HExprKind::Transfer(a) => {
            if holds_stmt(*a, part) {
                lemma_no_assignment(*a, part, iv);
            }
        },
        HExprKind::SliceLen(a) => {
            if holds_stmt(*a, part) {
                lemma_no_assignment(*a, part, iv);
            }
        },
        HExprKind::EnumTag(a) => {
            if holds_stmt(*a, part) {
                lemma_no_assignment(*a, part, iv);
            }
        },
        HExprKind::VariantCtor { fields, .. } => {
            if field_holds(fields, fields@.len(), part) {
                lemma_no_assignment_fields(fields, fields@.len(), part, iv);
            }
        },
        HExprKind::Match { scrutinee, arms, .. } => {
            if holds_stmt(*scrutinee, part) {
                lemma_no_assignment(*scrutinee, part, iv);
            } else if arm_holds(arms, arms@.len(), part) {
                lemma_no_assignment_arms(arms, arms@.len(), part, iv);
            }
        },
        HExprKind::Struct { fields, .. } => {
            if field_holds(fields, fields@.len(), part) {
                lemma_no_assignment_fields(fields, fields@.len(), part, iv);
            }
        },
        HExprKind::ArrayLit(es) => {
            if some_holds(es, es@.len(), part) {
                lemma_no_assignment_all(es, es@.len(), part, iv);
            }
        },
        _ => {},
    }
}

proof fn lemma_no_assignment_all(v: Vec<HExpr>, n: nat, part: HStmt, iv: u32)
    requires
        !analysis::any_mutates(v, n, iv),
        some_holds(v, n, part),
    ensures
        !assigns_to(part, iv),
    decreases v, n,
{
    if some_holds(v, (n - 1) as nat, part) {
        lemma_no_assignment_all(v, (n - 1) as nat, part, iv);
    } else {
        lemma_no_assignment(v@[n - 1], part, iv);
    }
}

proof fn lemma_no_assignment_fields(v: Vec<(usize, HExpr)>, n: nat, part: HStmt, iv: u32)
    requires
        !analysis::any_field_mutates(v, n, iv),
        field_holds(v, n, part),
    ensures
        !assigns_to(part, iv),
    decreases v, n,
{
    if field_holds(v, (n - 1) as nat, part) {
        lemma_no_assignment_fields(v, (n - 1) as nat, part, iv);
    } else {
        lemma_no_assignment(v@[n - 1].1, part, iv);
    }
}

proof fn lemma_no_assignment_stmts(v: Vec<HStmt>, n: nat, part: HStmt, iv: u32)
    requires
        !analysis::any_stmt_mutates(v, n, iv),
        stmts_hold(v, n, part),
    ensures
        !assigns_to(part, iv),
    decreases v, n,
{
    if stmts_hold(v, (n - 1) as nat, part) {
        lemma_no_assignment_stmts(v, (n - 1) as nat, part, iv);
    } else {
        lemma_no_assignment_stmt(v@[n - 1], part, iv);
    }
}

proof fn lemma_no_assignment_arms(v: Vec<HMatchArm>, n: nat, part: HStmt, iv: u32)
    requires
        !analysis::any_arm_mutates(v, n, iv),
        arm_holds(v, n, part),
    ensures
        !assigns_to(part, iv),
    decreases v, n,
{
    if arm_holds(v, (n - 1) as nat, part) {
        lemma_no_assignment_arms(v, (n - 1) as nat, part, iv);
    } else {
        let a = v@[n - 1];
        if a.guard is Some && holds_stmt(a.guard->0, part) {
            lemma_no_assignment(a.guard->0, part, iv);
        } else if stmts_hold(a.body.stmts, a.body.stmts@.len(), part) {
            lemma_no_assignment_stmts(a.body.stmts, a.body.stmts@.len(), part, iv);
        } else {
            lemma_no_assignment(a.value->0, part, iv);
        }
    }
}

proof fn lemma_no_assignment_stmt(s: HStmt, part: HStmt, iv: u32)
    requires
        !analysis::stmt_mutates(s, iv),
        stmt_holds(s, part),
    ensures
        !assigns_to(part, iv),
    decreases s, 0nat,
{
    if let HStmt::Assign { place, .. } = s {
        lemma_root(place, iv);
    }
    if s != part {
        match s {
            HStmt::Let { init, .. } => {
                if holds_stmt(init, part) {
                    lemma_no_assignment(init, part, iv);
                }
            },
            HStmt::Assign { place, value, .. } => {
                if holds_stmt(place, part) {
                    lemma_no_assignment(place, part, iv);
                } else if holds_stmt(value, part) {
                    lemma_no_assignment(value, part, iv);
                }
            },
            HStmt::ExprStmt(e) => {
                if holds_stmt(e, part) {
                    lemma_no_assignment(e, part, iv);
                }
            },
            HStmt::Return { value, .. } => {
                if value is Some && holds_stmt(value->0, part) {
                    lemma_no_assignment(value->0, part, iv);
                }
            },
            HStmt::Propagate { value } => {
                if value is Some && holds_stmt(value->0, part) {
                    lemma_no_assignment(value->0, part, iv);
                }
            },
            HStmt::If { cond, then_b, else_b } => {
                if holds_stmt(cond, part) {
                    lemma_no_assignment(cond, part, iv);
                } else if stmts_hold(then_b.stmts, then_b.stmts@.len(), part) {
                    lemma_no_assignment_stmts(then_b.stmts, then_b.stmts@.len(), part, iv);
                } else if else_b is Some && stmts_hold((else_b->0).stmts, (else_b->0).stmts@.len(),
                    part) {
                    lemma_no_assignment_stmts((else_b->0).stmts, (else_b->0).stmts@.len(), part,
                        iv);
                }
            },
            HStmt::While { cond, body } => {
                if holds_stmt(cond, part) {
                    lemma_no_assignment(cond, part, iv);
                } else if stmts_hold(body.stmts, body.stmts@.len(), part) {
                    lemma_no_assignment_stmts(body.stmts, body.stmts@.len(), part, iv);
                }
            },
            HStmt::Block(b) => {
                if stmts_hold(b.stmts, b.stmts@.len(), part) {
                    lemma_no_assignment_stmts(b.stmts, b.stmts@.len(), part, iv);
                }
            },
            HStmt::Unsafe(b) => {
                if stmts_hold(b.stmts, b.stmts@.len(), part) {
                    lemma_no_assignment_stmts(b.stmts, b.stmts@.len(), part, iv);
                }
            },
            HStmt::ForC { init, cond, step, body } => {
                if stmt_holds(*init, part) {
                    lemma_no_assignment_stmt(*init, part, iv);
                } else if holds_stmt(cond, part) {
                    lemma_no_assignment(cond, part, iv);
                } else if stmt_holds(*step, part) {
                    lemma_no_assignment_stmt(*step, part, iv);
                } else if stmts_hold(body.stmts, body.stmts@.len(), part) {
                    lemma_no_assignment_stmts(body.stmts, body.stmts@.len(), part, iv);
                }
            },
            HStmt::ForEach { src, body, .. } => {
                if holds_stmt(src, part) {
                    lemma_no_assignment(src, part, iv);
                } else if stmts_hold(body.stmts, body.stmts@.len(), part) {
                    lemma_no_assignment_stmts(body.stmts, body.stmts@.len(), part, iv);
                }
            },
            HStmt::Break | HStmt::Continue => {
                
            },
        }
    }
}

proof fn lemma_no_loan(e: HExpr, part: HExpr, iv: u32)
    requires
        !analysis::expr_mutates(e, iv),
        scan_laws::occurs(e, part),
    ensures
        !lends(part, iv),
    decreases e, 0nat,
{
    if let HExprKind::AddrOfRef { place, .. } = e.kind {
        lemma_root(*place, iv);
    }
    if e != part {
        match e.kind {
            HExprKind::Bin { lhs, rhs, .. } => {
                if scan_laws::occurs(*lhs, part) {
                    lemma_no_loan(*lhs, part, iv);
                } else if scan_laws::occurs(*rhs, part) {
                    lemma_no_loan(*rhs, part, iv);
                }
            },
            HExprKind::Un { expr, .. } => {
                if scan_laws::occurs(*expr, part) {
                    lemma_no_loan(*expr, part, iv);
                }
            },
            HExprKind::Unwrap { expr, .. } => {
                if scan_laws::occurs(*expr, part) {
                    lemma_no_loan(*expr, part, iv);
                }
            },
            HExprKind::AddrOfRef { place, .. } => {
                if scan_laws::occurs(*place, part) {
                    lemma_no_loan(*place, part, iv);
                }
            },
            HExprKind::Field { base, .. } => {
                if scan_laws::occurs(*base, part) {
                    lemma_no_loan(*base, part, iv);
                }
            },
            HExprKind::Index { base, idx } => {
                if scan_laws::occurs(*base, part) {
                    lemma_no_loan(*base, part, iv);
                } else if scan_laws::occurs(*idx, part) {
                    lemma_no_loan(*idx, part, iv);
                }
            },
            HExprKind::Call { args, .. } => {
                if scan_laws::any_occurs(args, args@.len(), part) {
                    lemma_no_loan_all(args, args@.len(), part, iv);
                }
            },
            HExprKind::Cast { expr, .. } => {
                if scan_laws::occurs(*expr, part) {
                    lemma_no_loan(*expr, part, iv);
                }
            },
            HExprKind::CheckedCast { expr, .. } => {
                if scan_laws::occurs(*expr, part) {
                    lemma_no_loan(*expr, part, iv);
                }
            },
            HExprKind::DropWrite(a) => {
                if scan_laws::occurs(*a, part) {
                    lemma_no_loan(*a, part, iv);
                }
            },
            HExprKind::ArrayToSlice { base, .. } => {
                if scan_laws::occurs(*base, part) {
                    lemma_no_loan(*base, part, iv);
                }
            },
            HExprKind::DerefRef(a) => {
                if scan_laws::occurs(*a, part) {
                    lemma_no_loan(*a, part, iv);
                }
            },
            HExprKind::HeapAlloc(a) => {
                if scan_laws::occurs(*a, part) {
                    lemma_no_loan(*a, part, iv);
                }
            },
            HExprKind::Free(a) => {
                if scan_laws::occurs(*a, part) {
                    lemma_no_loan(*a, part, iv);
                }
            },
            HExprKind::CallIndirect { callee, args } => {
                if scan_laws::occurs(*callee, part) {
                    lemma_no_loan(*callee, part, iv);
                } else if scan_laws::any_occurs(args, args@.len(), part) {
                    lemma_no_loan_all(args, args@.len(), part, iv);
                }
            },
            HExprKind::InlineCall { args, .. } => {
                if scan_laws::any_occurs(args, args@.len(), part) {
                    lemma_no_loan_all(args, args@.len(), part, iv);
                }
            },
            HExprKind::Closure { env_values, .. } => {
                if scan_laws::any_occurs(env_values, env_values@.len(), part) {
                    lemma_no_loan_all(env_values, env_values@.len(), part, iv);
                }
            },
            HExprKind::Transfer(a) => {
                if scan_laws::occurs(*a, part) {
                    lemma_no_loan(*a, part, iv);
                }
            },
            HExprKind::SliceLen(a) => {
                if scan_laws::occurs(*a, part) {
                    lemma_no_loan(*a, part, iv);
                }
            },
            HExprKind::EnumTag(a) => {
                if scan_laws::occurs(*a, part) {
                    lemma_no_loan(*a, part, iv);
                }
            },
            HExprKind::VariantCtor { fields, .. } => {
                if scan_laws::field_occurs(fields, fields@.len(), part) {
                    lemma_no_loan_fields(fields, fields@.len(), part, iv);
                }
            },
            HExprKind::Match { scrutinee, arms, .. } => {
                if scan_laws::occurs(*scrutinee, part) {
                    lemma_no_loan(*scrutinee, part, iv);
                } else if scan_laws::arm_occurs(arms, arms@.len(), part) {
                    lemma_no_loan_arms(arms, arms@.len(), part, iv);
                }
            },
            HExprKind::Struct { fields, .. } => {
                if scan_laws::field_occurs(fields, fields@.len(), part) {
                    lemma_no_loan_fields(fields, fields@.len(), part, iv);
                }
            },
            HExprKind::ArrayLit(es) => {
                if scan_laws::any_occurs(es, es@.len(), part) {
                    lemma_no_loan_all(es, es@.len(), part, iv);
                }
            },
            _ => {},
        }
    }
}

proof fn lemma_no_loan_all(v: Vec<HExpr>, n: nat, part: HExpr, iv: u32)
    requires
        !analysis::any_mutates(v, n, iv),
        scan_laws::any_occurs(v, n, part),
    ensures
        !lends(part, iv),
    decreases v, n,
{
    if scan_laws::any_occurs(v, (n - 1) as nat, part) {
        lemma_no_loan_all(v, (n - 1) as nat, part, iv);
    } else {
        lemma_no_loan(v@[n - 1], part, iv);
    }
}

proof fn lemma_no_loan_fields(v: Vec<(usize, HExpr)>, n: nat, part: HExpr, iv: u32)
    requires
        !analysis::any_field_mutates(v, n, iv),
        scan_laws::field_occurs(v, n, part),
    ensures
        !lends(part, iv),
    decreases v, n,
{
    if scan_laws::field_occurs(v, (n - 1) as nat, part) {
        lemma_no_loan_fields(v, (n - 1) as nat, part, iv);
    } else {
        lemma_no_loan(v@[n - 1].1, part, iv);
    }
}

proof fn lemma_no_loan_stmts(v: Vec<HStmt>, n: nat, part: HExpr, iv: u32)
    requires
        !analysis::any_stmt_mutates(v, n, iv),
        scan_laws::stmts_occur(v, n, part),
    ensures
        !lends(part, iv),
    decreases v, n,
{
    if scan_laws::stmts_occur(v, (n - 1) as nat, part) {
        lemma_no_loan_stmts(v, (n - 1) as nat, part, iv);
    } else {
        lemma_no_loan_stmt(v@[n - 1], part, iv);
    }
}

proof fn lemma_no_loan_arms(v: Vec<HMatchArm>, n: nat, part: HExpr, iv: u32)
    requires
        !analysis::any_arm_mutates(v, n, iv),
        scan_laws::arm_occurs(v, n, part),
    ensures
        !lends(part, iv),
    decreases v, n,
{
    if scan_laws::arm_occurs(v, (n - 1) as nat, part) {
        lemma_no_loan_arms(v, (n - 1) as nat, part, iv);
    } else {
        let a = v@[n - 1];
        if a.guard is Some && scan_laws::occurs(a.guard->0, part) {
            lemma_no_loan(a.guard->0, part, iv);
        } else if scan_laws::stmts_occur(a.body.stmts, a.body.stmts@.len(), part) {
            lemma_no_loan_stmts(a.body.stmts, a.body.stmts@.len(), part, iv);
        } else {
            lemma_no_loan(a.value->0, part, iv);
        }
    }
}

proof fn lemma_no_loan_stmt(s: HStmt, part: HExpr, iv: u32)
    requires
        !analysis::stmt_mutates(s, iv),
        scan_laws::stmt_occurs(s, part),
    ensures
        !lends(part, iv),
    decreases s, 0nat,
{
    match s {
        HStmt::Let { init, .. } => {
            if scan_laws::occurs(init, part) {
                lemma_no_loan(init, part, iv);
            }
        },
        HStmt::Assign { place, value, .. } => {
            if scan_laws::occurs(place, part) {
                lemma_no_loan(place, part, iv);
            } else if scan_laws::occurs(value, part) {
                lemma_no_loan(value, part, iv);
            }
        },
        HStmt::ExprStmt(e) => {
            if scan_laws::occurs(e, part) {
                lemma_no_loan(e, part, iv);
            }
        },
        HStmt::Return { value, .. } => {
            if value is Some && scan_laws::occurs(value->0, part) {
                lemma_no_loan(value->0, part, iv);
            }
        },
        HStmt::Propagate { value } => {
            if value is Some && scan_laws::occurs(value->0, part) {
                lemma_no_loan(value->0, part, iv);
            }
        },
        HStmt::If { cond, then_b, else_b } => {
            if scan_laws::occurs(cond, part) {
                lemma_no_loan(cond, part, iv);
            } else if scan_laws::stmts_occur(then_b.stmts, then_b.stmts@.len(), part) {
                lemma_no_loan_stmts(then_b.stmts, then_b.stmts@.len(), part, iv);
            } else if else_b is Some && scan_laws::stmts_occur((else_b->0).stmts,
                (else_b->0).stmts@.len(), part) {
                lemma_no_loan_stmts((else_b->0).stmts, (else_b->0).stmts@.len(), part, iv);
            }
        },
        HStmt::While { cond, body } => {
            if scan_laws::occurs(cond, part) {
                lemma_no_loan(cond, part, iv);
            } else if scan_laws::stmts_occur(body.stmts, body.stmts@.len(), part) {
                lemma_no_loan_stmts(body.stmts, body.stmts@.len(), part, iv);
            }
        },
        HStmt::Block(b) => {
            if scan_laws::stmts_occur(b.stmts, b.stmts@.len(), part) {
                lemma_no_loan_stmts(b.stmts, b.stmts@.len(), part, iv);
            }
        },
        HStmt::Unsafe(b) => {
            if scan_laws::stmts_occur(b.stmts, b.stmts@.len(), part) {
                lemma_no_loan_stmts(b.stmts, b.stmts@.len(), part, iv);
            }
        },
        HStmt::ForC { init, cond, step, body } => {
            if scan_laws::stmt_occurs(*init, part) {
                lemma_no_loan_stmt(*init, part, iv);
            } else if scan_laws::occurs(cond, part) {
                lemma_no_loan(cond, part, iv);
            } else if scan_laws::stmt_occurs(*step, part) {
                lemma_no_loan_stmt(*step, part, iv);
            } else if scan_laws::stmts_occur(body.stmts, body.stmts@.len(), part) {
                lemma_no_loan_stmts(body.stmts, body.stmts@.len(), part, iv);
            }
        },
        HStmt::ForEach { src, body, .. } => {
            if scan_laws::occurs(src, part) {
                lemma_no_loan(src, part, iv);
            } else if scan_laws::stmts_occur(body.stmts, body.stmts@.len(), part) {
                lemma_no_loan_stmts(body.stmts, body.stmts@.len(), part, iv);
            }
        },
        HStmt::Break | HStmt::Continue => {
            
        },
    }
}

proof fn lemma_changed(e: HExpr, iv: u32) -> (w: Change)
    requires
        analysis::expr_mutates(e, iv),
    ensures
        w matches Change::Assigned(t) ==> assigns_to(t, iv) && holds_stmt(e, t),
        w matches Change::Lent(p) ==> lends(p, iv) && scan_laws::occurs(e, p),
    decreases e, 0nat,
{
    match e.kind {
        HExprKind::Bin { lhs, rhs, .. } => {
            if analysis::expr_mutates(*lhs, iv) {
                lemma_changed(*lhs, iv)
            } else if analysis::expr_mutates(*rhs, iv) {
                lemma_changed(*rhs, iv)
            } else {
                Change::Lent(e)
            }
        },
        HExprKind::Un { expr, .. } => {
            if analysis::expr_mutates(*expr, iv) {
                lemma_changed(*expr, iv)
            } else {
                Change::Lent(e)
            }
        },
        HExprKind::Unwrap { expr, .. } => {
            if analysis::expr_mutates(*expr, iv) {
                lemma_changed(*expr, iv)
            } else {
                Change::Lent(e)
            }
        },
        HExprKind::AddrOfRef { place, .. } => {
            if analysis::expr_mutates(*place, iv) {
                lemma_changed(*place, iv)
            } else {
                lemma_root(*place, iv);
                Change::Lent(e)
            }
        },
        HExprKind::Field { base, .. } => {
            if analysis::expr_mutates(*base, iv) {
                lemma_changed(*base, iv)
            } else {
                Change::Lent(e)
            }
        },
        HExprKind::Index { base, idx } => {
            if analysis::expr_mutates(*base, iv) {
                lemma_changed(*base, iv)
            } else if analysis::expr_mutates(*idx, iv) {
                lemma_changed(*idx, iv)
            } else {
                Change::Lent(e)
            }
        },
        HExprKind::Call { args, .. } => {
            if analysis::any_mutates(args, args@.len(), iv) {
                lemma_changed_all(args, args@.len(), iv)
            } else {
                Change::Lent(e)
            }
        },
        HExprKind::Cast { expr, .. } => {
            if analysis::expr_mutates(*expr, iv) {
                lemma_changed(*expr, iv)
            } else {
                Change::Lent(e)
            }
        },
        HExprKind::CheckedCast { expr, .. } => {
            if analysis::expr_mutates(*expr, iv) {
                lemma_changed(*expr, iv)
            } else {
                Change::Lent(e)
            }
        },
        HExprKind::DropWrite(a) => {
            if analysis::expr_mutates(*a, iv) {
                lemma_changed(*a, iv)
            } else {
                Change::Lent(e)
            }
        },
        HExprKind::ArrayToSlice { base, .. } => {
            if analysis::expr_mutates(*base, iv) {
                lemma_changed(*base, iv)
            } else {
                Change::Lent(e)
            }
        },
        HExprKind::DerefRef(a) => {
            if analysis::expr_mutates(*a, iv) {
                lemma_changed(*a, iv)
            } else {
                Change::Lent(e)
            }
        },
        HExprKind::HeapAlloc(a) => {
            if analysis::expr_mutates(*a, iv) {
                lemma_changed(*a, iv)
            } else {
                Change::Lent(e)
            }
        },
        HExprKind::Free(a) => {
            if analysis::expr_mutates(*a, iv) {
                lemma_changed(*a, iv)
            } else {
                Change::Lent(e)
            }
        },
        HExprKind::CallIndirect { callee, args } => {
            if analysis::expr_mutates(*callee, iv) {
                lemma_changed(*callee, iv)
            } else if analysis::any_mutates(args, args@.len(), iv) {
                lemma_changed_all(args, args@.len(), iv)
            } else {
                Change::Lent(e)
            }
        },
        HExprKind::InlineCall { args, .. } => {
            if analysis::any_mutates(args, args@.len(), iv) {
                lemma_changed_all(args, args@.len(), iv)
            } else {
                Change::Lent(e)
            }
        },
        HExprKind::Closure { env_values, .. } => {
            if analysis::any_mutates(env_values, env_values@.len(), iv) {
                lemma_changed_all(env_values, env_values@.len(), iv)
            } else {
                Change::Lent(e)
            }
        },
        HExprKind::Transfer(a) => {
            if analysis::expr_mutates(*a, iv) {
                lemma_changed(*a, iv)
            } else {
                Change::Lent(e)
            }
        },
        HExprKind::SliceLen(a) => {
            if analysis::expr_mutates(*a, iv) {
                lemma_changed(*a, iv)
            } else {
                Change::Lent(e)
            }
        },
        HExprKind::EnumTag(a) => {
            if analysis::expr_mutates(*a, iv) {
                lemma_changed(*a, iv)
            } else {
                Change::Lent(e)
            }
        },
        HExprKind::VariantCtor { fields, .. } => {
            if analysis::any_field_mutates(fields, fields@.len(), iv) {
                lemma_changed_fields(fields, fields@.len(), iv)
            } else {
                Change::Lent(e)
            }
        },
        HExprKind::Match { scrutinee, arms, .. } => {
            if analysis::expr_mutates(*scrutinee, iv) {
                lemma_changed(*scrutinee, iv)
            } else if analysis::any_arm_mutates(arms, arms@.len(), iv) {
                lemma_changed_arms(arms, arms@.len(), iv)
            } else {
                Change::Lent(e)
            }
        },
        HExprKind::Struct { fields, .. } => {
            if analysis::any_field_mutates(fields, fields@.len(), iv) {
                lemma_changed_fields(fields, fields@.len(), iv)
            } else {
                Change::Lent(e)
            }
        },
        HExprKind::ArrayLit(es) => {
            if analysis::any_mutates(es, es@.len(), iv) {
                lemma_changed_all(es, es@.len(), iv)
            } else {
                Change::Lent(e)
            }
        },
        _ => {Change::Lent(e)},
    }
}

proof fn lemma_changed_all(v: Vec<HExpr>, n: nat, iv: u32) -> (w: Change)
    requires
        analysis::any_mutates(v, n, iv),
    ensures
        w matches Change::Assigned(t) ==> assigns_to(t, iv) && some_holds(v, n, t),
        w matches Change::Lent(p) ==> lends(p, iv) && scan_laws::any_occurs(v, n, p),
    decreases v, n,
{
    if analysis::any_mutates(v, (n - 1) as nat, iv) {
        lemma_changed_all(v, (n - 1) as nat, iv)
    } else {
        lemma_changed(v@[n - 1], iv)
    }
}

proof fn lemma_changed_fields(v: Vec<(usize, HExpr)>, n: nat, iv: u32) -> (w: Change)
    requires
        analysis::any_field_mutates(v, n, iv),
    ensures
        w matches Change::Assigned(t) ==> assigns_to(t, iv) && field_holds(v, n, t),
        w matches Change::Lent(p) ==> lends(p, iv) && scan_laws::field_occurs(v, n, p),
    decreases v, n,
{
    if analysis::any_field_mutates(v, (n - 1) as nat, iv) {
        lemma_changed_fields(v, (n - 1) as nat, iv)
    } else {
        lemma_changed(v@[n - 1].1, iv)
    }
}

proof fn lemma_changed_stmts(v: Vec<HStmt>, n: nat, iv: u32) -> (w: Change)
    requires
        analysis::any_stmt_mutates(v, n, iv),
    ensures
        w matches Change::Assigned(t) ==> assigns_to(t, iv) && stmts_hold(v, n, t),
        w matches Change::Lent(p) ==> lends(p, iv) && scan_laws::stmts_occur(v, n, p),
    decreases v, n,
{
    if analysis::any_stmt_mutates(v, (n - 1) as nat, iv) {
        lemma_changed_stmts(v, (n - 1) as nat, iv)
    } else {
        lemma_changed_stmt(v@[n - 1], iv)
    }
}

proof fn lemma_changed_arms(v: Vec<HMatchArm>, n: nat, iv: u32) -> (w: Change)
    requires
        analysis::any_arm_mutates(v, n, iv),
    ensures
        w matches Change::Assigned(t) ==> assigns_to(t, iv) && arm_holds(v, n, t),
        w matches Change::Lent(p) ==> lends(p, iv) && scan_laws::arm_occurs(v, n, p),
    decreases v, n,
{
    if analysis::any_arm_mutates(v, (n - 1) as nat, iv) {
        lemma_changed_arms(v, (n - 1) as nat, iv)
    } else {
        let a = v@[n - 1];
        if a.guard is Some && analysis::expr_mutates(a.guard->0, iv) {
            lemma_changed(a.guard->0, iv)
        } else if analysis::any_stmt_mutates(a.body.stmts, a.body.stmts@.len(), iv) {
            lemma_changed_stmts(a.body.stmts, a.body.stmts@.len(), iv)
        } else {
            lemma_changed(a.value->0, iv)
        }
    }
}

proof fn lemma_changed_stmt(s: HStmt, iv: u32) -> (w: Change)
    requires
        analysis::stmt_mutates(s, iv),
    ensures
        w matches Change::Assigned(t) ==> assigns_to(t, iv) && stmt_holds(s, t),
        w matches Change::Lent(p) ==> lends(p, iv) && scan_laws::stmt_occurs(s, p),
    decreases s, 0nat,
{
    match s {
        HStmt::Let { init, .. } => {
            if analysis::expr_mutates(init, iv) {
                lemma_changed(init, iv)
            } else {
                Change::Assigned(s)
            }
        },
        HStmt::Assign { place, value, .. } => {
            if analysis::expr_mutates(place, iv) {
                lemma_changed(place, iv)
            } else if analysis::expr_mutates(value, iv) {
                lemma_changed(value, iv)
            } else {
                lemma_root(place, iv);
                Change::Assigned(s)
            }
        },
        HStmt::ExprStmt(e) => {
            if analysis::expr_mutates(e, iv) {
                lemma_changed(e, iv)
            } else {
                Change::Assigned(s)
            }
        },
        HStmt::Return { value, .. } => {
            if value is Some && analysis::expr_mutates(value->0, iv) {
                lemma_changed(value->0, iv)
            } else {
                Change::Assigned(s)
            }
        },
        HStmt::Propagate { value } => {
            if value is Some && analysis::expr_mutates(value->0, iv) {
                lemma_changed(value->0, iv)
            } else {
                Change::Assigned(s)
            }
        },
        HStmt::If { cond, then_b, else_b } => {
            if analysis::expr_mutates(cond, iv) {
                lemma_changed(cond, iv)
            } else if analysis::any_stmt_mutates(then_b.stmts, then_b.stmts@.len(), iv) {
                lemma_changed_stmts(then_b.stmts, then_b.stmts@.len(), iv)
            } else if else_b is Some && analysis::any_stmt_mutates((else_b->0).stmts,
                (else_b->0).stmts@.len(), iv) {
                lemma_changed_stmts((else_b->0).stmts, (else_b->0).stmts@.len(), iv)
            } else {
                Change::Assigned(s)
            }
        },
        HStmt::While { cond, body } => {
            if analysis::expr_mutates(cond, iv) {
                lemma_changed(cond, iv)
            } else if analysis::any_stmt_mutates(body.stmts, body.stmts@.len(), iv) {
                lemma_changed_stmts(body.stmts, body.stmts@.len(), iv)
            } else {
                Change::Assigned(s)
            }
        },
        HStmt::Block(b) => {
            if analysis::any_stmt_mutates(b.stmts, b.stmts@.len(), iv) {
                lemma_changed_stmts(b.stmts, b.stmts@.len(), iv)
            } else {
                Change::Assigned(s)
            }
        },
        HStmt::Unsafe(b) => {
            if analysis::any_stmt_mutates(b.stmts, b.stmts@.len(), iv) {
                lemma_changed_stmts(b.stmts, b.stmts@.len(), iv)
            } else {
                Change::Assigned(s)
            }
        },
        HStmt::ForC { init, cond, step, body } => {
            if analysis::stmt_mutates(*init, iv) {
                lemma_changed_stmt(*init, iv)
            } else if analysis::expr_mutates(cond, iv) {
                lemma_changed(cond, iv)
            } else if analysis::stmt_mutates(*step, iv) {
                lemma_changed_stmt(*step, iv)
            } else if analysis::any_stmt_mutates(body.stmts, body.stmts@.len(), iv) {
                lemma_changed_stmts(body.stmts, body.stmts@.len(), iv)
            } else {
                Change::Assigned(s)
            }
        },
        HStmt::ForEach { src, body, .. } => {
            if analysis::expr_mutates(src, iv) {
                lemma_changed(src, iv)
            } else if analysis::any_stmt_mutates(body.stmts, body.stmts@.len(), iv) {
                lemma_changed_stmts(body.stmts, body.stmts@.len(), iv)
            } else {
                Change::Assigned(s)
            }
        },
        HStmt::Break | HStmt::Continue => {
            Change::Assigned(s)
        },
    }
}

/// A statement is said to change a local exactly where an assignment to a place of the local
/// or a mutable borrow of one stands in it, at any depth.
pub proof fn law_mutation_is_found(s: HStmt, iv: u32)
    ensures
        analysis::stmt_mutates(s, iv) <==> (exists|t: HStmt| #[trigger] stmt_holds(s, t)
            && assigns_to(t, iv))
            || (exists|p: HExpr| #[trigger] scan_laws::stmt_occurs(s, p) && lends(p, iv)),
{
    if analysis::stmt_mutates(s, iv) {
        let w = lemma_changed_stmt(s, iv);
    } else {
        assert forall|t: HStmt| #[trigger] stmt_holds(s, t) implies !assigns_to(t, iv) by {
            lemma_no_assignment_stmt(s, t, iv);
        }
        assert forall|p: HExpr| #[trigger] scan_laws::stmt_occurs(s, p) implies !lends(p, iv) by {
            lemma_no_loan_stmt(s, p, iv);
        }
    }
}

/// The same of the body of a loop: a block is said to change a local exactly where one of its
/// statements does.
pub proof fn law_mutation_in_a_block_is_found(b: HBlock, iv: u32)
    ensures
        analysis::block_mutates(b, iv) <==> (exists|i: int|
            0 <= i < b.stmts@.len() && analysis::stmt_mutates(#[trigger] b.stmts@[i], iv)),
{
    lemma_any_stmt(b.stmts, b.stmts@.len(), iv);
}

proof fn lemma_any_stmt(v: Vec<HStmt>, n: nat, iv: u32)
    requires
        n <= v@.len(),
    ensures
        analysis::any_stmt_mutates(v, n, iv) <==> (exists|i: int|
            0 <= i < n && analysis::stmt_mutates(#[trigger] v@[i], iv)),
    decreases n,
{
    if n > 0 {
        lemma_any_stmt(v, (n - 1) as nat, iv);
        if analysis::stmt_mutates(v@[n - 1], iv) {
            assert(0 <= n - 1 < n);
        }
    }
}

/// The same of an expression.
pub proof fn law_mutation_in_an_expression_is_found(e: HExpr, iv: u32)
    ensures
        analysis::expr_mutates(e, iv) <==> (exists|t: HStmt| #[trigger] holds_stmt(e, t)
            && assigns_to(t, iv)) || (
        exists|p: HExpr| #[trigger] scan_laws::occurs(e, p) && lends(p, iv)),
{
    if analysis::expr_mutates(e, iv) {
        let w = lemma_changed(e, iv);
    } else {
        assert forall|t: HStmt| #[trigger] holds_stmt(e, t) implies !assigns_to(t, iv) by {
            lemma_no_assignment(e, t, iv);
        }
        assert forall|p: HExpr| #[trigger] scan_laws::occurs(e, p) implies !lends(p, iv) by {
            lemma_no_loan(e, p, iv);
        }
    }
}

/// The expression is the local or a global that is looked for.
pub open spec fn is_mention(e: HExpr, id: Mention) -> bool {
    match e.kind {
        HExprKind::Local(l) => id == Mention::Local(l.0),
        HExprKind::GlobalRef(_) => id == Mention::Global,
        _ => false,
    }
}

/// The statement is a return that releases the local.
pub open spec fn releases(s: HStmt, id: Mention) -> bool {
    match s {
        HStmt::Return { heap_drops, .. } => match id {
            Mention::Local(k) => exists|i: int|
                0 <= i < heap_drops@.len() && (#[trigger] heap_drops@[i]).0 == k,
            Mention::Global => false,
        },
        _ => false,
    }
}

proof fn lemma_not_read(e: HExpr, part: HExpr, id: Mention)
    requires
        !analysis::mentions(e, id),
        scan_laws::occurs(e, part),
    ensures
        !is_mention(part, id),
    decreases e, 0nat,
{
    if e != part {
        match e.kind {
            HExprKind::Bin { lhs, rhs, .. } => {
                if scan_laws::occurs(*lhs, part) {
                    lemma_not_read(*lhs, part, id);
                } else if scan_laws::occurs(*rhs, part) {
                    lemma_not_read(*rhs, part, id);
                }
            },
            HExprKind::Un { expr, .. } => {
                if scan_laws::occurs(*expr, part) {
                    lemma_not_read(*expr, part, id);
                }
            },
            HExprKind::Unwrap { expr, .. } => {
                if scan_laws::occurs(*expr, part) {
                    lemma_not_read(*expr, part, id);
                }
            },
            HExprKind::AddrOfRef { place, .. } => {
                if scan_laws::occurs(*place, part) {
                    lemma_not_read(*place, part, id);
                }
            },
            HExprKind::Field { base, .. } => {
                if scan_laws::occurs(*base, part) {
                    lemma_not_read(*base, part, id);
                }
            },
            HExprKind::Index { base, idx } => {
                if scan_laws::occurs(*base, part) {
                    lemma_not_read(*base, part, id);
                } else if scan_laws::occurs(*idx, part) {
                    lemma_not_read(*idx, part, id);
                }
            },
            HExprKind::Call { args, .. } => {
                if scan_laws::any_occurs(args, args@.len(), part) {
                    lemma_not_read_all(args, args@.len(), part, id);
                }
            },
            HExprKind::Cast { expr, .. } => {
                if scan_laws::occurs(*expr, part) {
                    lemma_not_read(*expr, part, id);
                }
            },
            HExprKind::CheckedCast { expr, .. } => {
                if scan_laws::occurs(*expr, part) {
                    lemma_not_read(*expr, part, id);
                }
            },
            HExprKind::DropWrite(a) => {
                if scan_laws::occurs(*a, part) {
                    lemma_not_read(*a, part, id);
                }
            },
            HExprKind::ArrayToSlice { base, .. } => {
                if scan_laws::occurs(*base, part) {
                    lemma_not_read(*base, part, id);
                }
            },
            HExprKind::DerefRef(a) => {
                if scan_laws::occurs(*a, part) {
                    lemma_not_read(*a, part, id);
                }
            },
            HExprKind::HeapAlloc(a) => {
                if scan_laws::occurs(*a, part) {
                    lemma_not_read(*a, part, id);
                }
            },
            HExprKind::Free(a) => {
                if scan_laws::occurs(*a, part) {
                    lemma_not_read(*a, part, id);
                }
            },
            HExprKind::CallIndirect { callee, args } => {
                if scan_laws::occurs(*callee, part) {
                    lemma_not_read(*callee, part, id);
                } else if scan_laws::any_occurs(args, args@.len(), part) {
                    lemma_not_read_all(args, args@.len(), part, id);
                }
            },
            HExprKind::InlineCall { args, .. } => {
                if scan_laws::any_occurs(args, args@.len(), part) {
                    lemma_not_read_all(args, args@.len(), part, id);
                }
            },
            HExprKind::Closure { env_values, .. } => {
                if scan_laws::any_occurs(env_values, env_values@.len(), part) {
                    lemma_not_read_all(env_values, env_values@.len(), part, id);
                }
            },
            HExprKind::Transfer(a) => {
                if scan_laws::occurs(*a, part) {
                    lemma_not_read(*a, part, id);
                }
            },
            HExprKind::SliceLen(a) => {
                if scan_laws::occurs(*a, part) {
                    lemma_not_read(*a, part, id);
                }
            },
            HExprKind::EnumTag(a) => {
                if scan_laws::occurs(*a, part) {
                    lemma_not_read(*a, part, id);
                }
            },
            HExprKind::VariantCtor { fields, .. } => {
                if scan_laws::field_occurs(fields, fields@.len(), part) {
                    lemma_not_read_fields(fields, fields@.len(), part, id);
                }
            },
            HExprKind::Match { scrutinee, arms, .. } => {
                if scan_laws::occurs(*scrutinee, part) {
                    lemma_not_read(*scrutinee, part, id);
                } else if scan_laws::arm_occurs(arms, arms@.len(), part) {
                    lemma_not_read_arms(arms, arms@.len(), part, id);
                }
            },
            HExprKind::Struct { fields, .. } => {
                if scan_laws::field_occurs(fields, fields@.len(), part) {
                    lemma_not_read_fields(fields, fields@.len(), part, id);
                }
            },
            HExprKind::ArrayLit(es) => {
                if scan_laws::any_occurs(es, es@.len(), part) {
                    lemma_not_read_all(es, es@.len(), part, id);
                }
            },
            _ => {},
        }
    }
}

proof fn lemma_not_read_all(v: Vec<HExpr>, n: nat, part: HExpr, id: Mention)
    requires
        !analysis::any_mentions(v, n, id),
        scan_laws::any_occurs(v, n, part),
    ensures
        !is_mention(part, id),
    decreases v, n,
{
    if scan_laws::any_occurs(v, (n - 1) as nat, part) {
        lemma_not_read_all(v, (n - 1) as nat, part, id);
    } else {
        lemma_not_read(v@[n - 1], part, id);
    }
}

proof fn lemma_not_read_fields(v: Vec<(usize, HExpr)>, n: nat, part: HExpr, id: Mention)
    requires
        !analysis::any_field_mentions(v, n, id),
        scan_laws::field_occurs(v, n, part),
    ensures
        !is_mention(part, id),
    decreases v, n,
{
    if scan_laws::field_occurs(v, (n - 1) as nat, part) {
        lemma_not_read_fields(v, (n - 1) as nat, part, id);
    } else {
        lemma_not_read(v@[n - 1].1, part, id);
    }
}

proof fn lemma_not_read_stmts(v: Vec<HStmt>, n: nat, part: HExpr, id: Mention)
    requires
        !analysis::any_stmt_mentions(v, n, id),
        scan_laws::stmts_occur(v, n, part),
    ensures
        !is_mention(part, id),
    decreases v, n,
{
    if scan_laws::stmts_occur(v, (n - 1) as nat, part) {
        lemma_not_read_stmts(v, (n - 1) as nat, part, id);
    } else {
        lemma_not_read_stmt(v@[n - 1], part, id);
    }
}

proof fn lemma_not_read_arms(v: Vec<HMatchArm>, n: nat, part: HExpr, id: Mention)
    requires
        !analysis::any_arm_mentions(v, n, id),
        scan_laws::arm_occurs(v, n, part),
    ensures
        !is_mention(part, id),
    decreases v, n,
{
    if scan_laws::arm_occurs(v, (n - 1) as nat, part) {
        lemma_not_read_arms(v, (n - 1) as nat, part, id);
    } else {
        let a = v@[n - 1];
        if a.guard is Some && scan_laws::occurs(a.guard->0, part) {
            lemma_not_read(a.guard->0, part, id);
        } else if scan_laws::stmts_occur(a.body.stmts, a.body.stmts@.len(), part) {
            lemma_not_read_stmts(a.body.stmts, a.body.stmts@.len(), part, id);
        } else {
            lemma_not_read(a.value->0, part, id);
        }
    }
}

proof fn lemma_not_read_stmt(s: HStmt, part: HExpr, id: Mention)
    requires
        !analysis::stmt_mentions(s, id),
        scan_laws::stmt_occurs(s, part),
    ensures
        !is_mention(part, id),
    decreases s, 0nat,
{
    match s {
        HStmt::Let { init, .. } => {
            if scan_laws::occurs(init, part) {
                lemma_not_read(init, part, id);
            }
        },
        HStmt::Assign { place, value, .. } => {
            if scan_laws::occurs(place, part) {
                lemma_not_read(place, part, id);
            } else if scan_laws::occurs(value, part) {
                lemma_not_read(value, part, id);
            }
        },
        HStmt::ExprStmt(e) => {
            if scan_laws::occurs(e, part) {
                lemma_not_read(e, part, id);
            }
        },
        HStmt::Return { value, .. } => {
            if value is Some && scan_laws::occurs(value->0, part) {
                lemma_not_read(value->0, part, id);
            }
        },
        HStmt::Propagate { value } => {
            if value is Some && scan_laws::occurs(value->0, part) {
                lemma_not_read(value->0, part, id);
            }
        },
        HStmt::If { cond, then_b, else_b } => {
            if scan_laws::occurs(cond, part) {
                lemma_not_read(cond, part, id);
            } else if scan_laws::stmts_occur(then_b.stmts, then_b.stmts@.len(), part) {
                assert(!analysis::block_mentions(then_b, id));
                lemma_not_read_stmts(then_b.stmts, then_b.stmts@.len(), part, id);
            } else if else_b is Some && scan_laws::stmts_occur((else_b->0).stmts,
                (else_b->0).stmts@.len(), part) {
                assert(!analysis::block_mentions((else_b->0), id));
                lemma_not_read_stmts((else_b->0).stmts, (else_b->0).stmts@.len(), part, id);
            }
        },
        HStmt::While { cond, body } => {
            if scan_laws::occurs(cond, part) {
                lemma_not_read(cond, part, id);
            } else if scan_laws::stmts_occur(body.stmts, body.stmts@.len(), part) {
                assert(!analysis::block_mentions(body, id));
                lemma_not_read_stmts(body.stmts, body.stmts@.len(), part, id);
            }
        },
        HStmt::Block(b) => {
            if scan_laws::stmts_occur(b.stmts, b.stmts@.len(), part) {
                assert(!analysis::block_mentions(b, id));
                lemma_not_read_stmts(b.stmts, b.stmts@.len(), part, id);
            }
        },
        HStmt::Unsafe(b) => {
            if scan_laws::stmts_occur(b.stmts, b.stmts@.len(), part) {
                assert(!analysis::block_mentions(b, id));
                lemma_not_read_stmts(b.stmts, b.stmts@.len(), part, id);
            }
        },
        HStmt::ForC { init, cond, step, body } => {
            if scan_laws::stmt_occurs(*init, part) {
                lemma_not_read_stmt(*init, part, id);
            } else if scan_laws::occurs(cond, part) {
                lemma_not_read(cond, part, id);
            } else if scan_laws::stmt_occurs(*step, part) {
                lemma_not_read_stmt(*step, part, id);
            } else if scan_laws::stmts_occur(body.stmts, body.stmts@.len(), part) {
                assert(!analysis::block_mentions(body, id));
                lemma_not_read_stmts(body.stmts, body.stmts@.len(), part, id);
            }
        },
        HStmt::ForEach { src, body, .. } => {
            if scan_laws::occurs(src, part) {
                lemma_not_read(src, part, id);
            } else if scan_laws::stmts_occur(body.stmts, body.stmts@.len(), part) {
                assert(!analysis::block_mentions(body, id));
                lemma_not_read_stmts(body.stmts, body.stmts@.len(), part, id);
            }
        },
        HStmt::Break | HStmt::Continue => {
            
        },
    }
}

proof fn lemma_not_released(e: HExpr, part: HStmt, id: Mention)
    requires
        !analysis::mentions(e, id),
        holds_stmt(e, part),
    ensures
        !releases(part, id),
    decreases e, 0nat,
{
    match e.kind {
        HExprKind::Bin { lhs, rhs, .. } => {
            if holds_stmt(*lhs, part) {
                lemma_not_released(*lhs, part, id);
            } else if holds_stmt(*rhs, part) {
                lemma_not_released(*rhs, part, id);
            }
        },
        HExprKind::Un { expr, .. } => {
            if holds_stmt(*expr, part) {
                lemma_not_released(*expr, part, id);
            }
        },
        HExprKind::Unwrap { expr, .. } => {
            if holds_stmt(*expr, part) {
                lemma_not_released(*expr, part, id);
            }
        },
        HExprKind::AddrOfRef { place, .. } => {
            if holds_stmt(*place, part) {
                lemma_not_released(*place, part, id);
            }
        },
        HExprKind::Field { base, .. } => {
            if holds_stmt(*base, part) {
                lemma_not_released(*base, part, id);
            }
        },
        HExprKind::Index { base, idx } => {
            if holds_stmt(*base, part) {
                lemma_not_released(*base, part, id);
            } else if holds_stmt(*idx, part) {
                lemma_not_released(*idx, part, id);
            }
        },
        HExprKind::Call { args, .. } => {
            if some_holds(args, args@.len(), part) {
                lemma_not_released_all(args, args@.len(), part, id);
            }
        },
        HExprKind::Cast { expr, .. } => {
            if holds_stmt(*expr, part) {
                lemma_not_released(*expr, part, id);
            }
        },
        HExprKind::CheckedCast { expr, .. } => {
            if holds_stmt(*expr, part) {
                lemma_not_released(*expr, part, id);
            }
        },
        HExprKind::DropWrite(a) => {
            if holds_stmt(*a, part) {
                lemma_not_released(*a, part, id);
            }
        },
        HExprKind::ArrayToSlice { base, .. } => {
            if holds_stmt(*base, part) {
                lemma_not_released(*base, part, id);
            }
        },
        HExprKind::DerefRef(a) => {
            if holds_stmt(*a, part) {
                lemma_not_released(*a, part, id);
            }
        },
        HExprKind::HeapAlloc(a) => {
            if holds_stmt(*a, part) {
                lemma_not_released(*a, part, id);
            }
        },
        HExprKind::Free(a) => {
            if holds_stmt(*a, part) {
                lemma_not_released(*a, part, id);
            }
        },
        HExprKind::CallIndirect { callee, args } => {
            if holds_stmt(*callee, part) {
                lemma_not_released(*callee, part, id);
            } else if some_holds(args, args@.len(), part) {
                lemma_not_released_all(args, args@.len(), part, id);
            }
        },
        HExprKind::InlineCall { args, .. } => {
            if some_holds(args, args@.len(), part) {
                lemma_not_released_all(args, args@.len(), part, id);
            }
        },
        HExprKind::Closure { env_values, .. } => {
            if some_holds(env_values, env_values@.len(), part) {
                lemma_not_released_all(env_values, env_values@.len(), part, id);
            }
        },
        HExprKind::Transfer(a) => {
            if holds_stmt(*a, part) {
                lemma_not_released(*a, part, id);
            }
        },
        HExprKind::SliceLen(a) => {
            if holds_stmt(*a, part) {
                lemma_not_released(*a, part, id);
            }
        },
        HExprKind::EnumTag(a) => {
            if holds_stmt(*a, part) {
                lemma_not_released(*a, part, id);
            }
        },
        HExprKind::VariantCtor { fields, .. } => {
            if field_holds(fields, fields@.len(), part) {
                lemma_not_released_fields(fields, fields@.len(), part, id);
            }
        },
        HExprKind::Match { scrutinee, arms, .. } => {
            if holds_stmt(*scrutinee, part) {
                lemma_not_released(*scrutinee, part, id);
            } else if arm_holds(arms, arms@.len(), part) {
                lemma_not_released_arms(arms, arms@.len(), part, id);
            }
        },
        HExprKind::Struct { fields, .. } => {
            if field_holds(fields, fields@.len(), part) {
                lemma_not_released_fields(fields, fields@.len(), part, id);
            }
        },
        HExprKind::ArrayLit(es) => {
            if some_holds(es, es@.len(), part) {
                lemma_not_released_all(es, es@.len(), part, id);
            }
        },
        _ => {},
    }
}

proof fn lemma_not_released_all(v: Vec<HExpr>, n: nat, part: HStmt, id: Mention)
    requires
        !analysis::any_mentions(v, n, id),
        some_holds(v, n, part),
    ensures
        !releases(part, id),
    decreases v, n,
{
    if some_holds(v, (n - 1) as nat, part) {
        lemma_not_released_all(v, (n - 1) as nat, part, id);
    } else {
        lemma_not_released(v@[n - 1], part, id);
    }
}

proof fn lemma_not_released_fields(v: Vec<(usize, HExpr)>, n: nat, part: HStmt, id: Mention)
    requires
        !analysis::any_field_mentions(v, n, id),
        field_holds(v, n, part),
    ensures
        !releases(part, id),
    decreases v, n,
{
    if field_holds(v, (n - 1) as nat, part) {
        lemma_not_released_fields(v, (n - 1) as nat, part, id);
    } else {
        lemma_not_released(v@[n - 1].1, part, id);
    }
}

proof fn lemma_not_released_stmts(v: Vec<HStmt>, n: nat, part: HStmt, id: Mention)
    requires
        !analysis::any_stmt_mentions(v, n, id),
        stmts_hold(v, n, part),
    ensures
        !releases(part, id),
    decreases v, n,
{
    if stmts_hold(v, (n - 1) as nat, part) {
        lemma_not_released_stmts(v, (n - 1) as nat, part, id);
    } else {
        lemma_not_released_stmt(v@[n - 1], part, id);
    }
}

proof fn lemma_not_released_arms(v: Vec<HMatchArm>, n: nat, part: HStmt, id: Mention)
    requires
        !analysis::any_arm_mentions(v, n, id),
        arm_holds(v, n, part),
    ensures
        !releases(part, id),
    decreases v, n,
{
    if arm_holds(v, (n - 1) as nat, part) {
        lemma_not_released_arms(v, (n - 1) as nat, part, id);
    } else {
        let a = v@[n - 1];
        if a.guard is Some && holds_stmt(a.guard->0, part) {
            lemma_not_released(a.guard->0, part, id);
        } else if stmts_hold(a.body.stmts, a.body.stmts@.len(), part) {
            lemma_not_released_stmts(a.body.stmts, a.body.stmts@.len(), part, id);
        } else {
            lemma_not_released(a.value->0, part, id);
        }
    }
}

proof fn lemma_not_released_stmt(s: HStmt, part: HStmt, id: Mention)
    requires
        !analysis::stmt_mentions(s, id),
        stmt_holds(s, part),
    ensures
        !releases(part, id),
    decreases s, 0nat,
{
    if s != part {
        match s {
            HStmt::Let { init, .. } => {
                if holds_stmt(init, part) {
                    lemma_not_released(init, part, id);
                }
            },
            HStmt::Assign { place, value, .. } => {
                if holds_stmt(place, part) {
                    lemma_not_released(place, part, id);
                } else if holds_stmt(value, part) {
                    lemma_not_released(value, part, id);
                }
            },
            HStmt::ExprStmt(e) => {
                if holds_stmt(e, part) {
                    lemma_not_released(e, part, id);
                }
            },
            HStmt::Return { value, .. } => {
                if value is Some && holds_stmt(value->0, part) {
                    lemma_not_released(value->0, part, id);
                }
            },
            HStmt::Propagate { value } => {
                if value is Some && holds_stmt(value->0, part) {
                    lemma_not_released(value->0, part, id);
                }
            },
            HStmt::If { cond, then_b, else_b } => {
                if holds_stmt(cond, part) {
                    lemma_not_released(cond, part, id);
                } else if stmts_hold(then_b.stmts, then_b.stmts@.len(), part) {
                    assert(!analysis::block_mentions(then_b, id));
                    lemma_not_released_stmts(then_b.stmts, then_b.stmts@.len(), part, id);
                } else if else_b is Some && stmts_hold((else_b->0).stmts, (else_b->0).stmts@.len(),
                    part) {
                    assert(!analysis::block_mentions((else_b->0), id));
                    lemma_not_released_stmts((else_b->0).stmts, (else_b->0).stmts@.len(), part, id);
                }
            },
            HStmt::While { cond, body } => {
                if holds_stmt(cond, part) {
                    lemma_not_released(cond, part, id);
                } else if stmts_hold(body.stmts, body.stmts@.len(), part) {
                    assert(!analysis::block_mentions(body, id));
                    lemma_not_released_stmts(body.stmts, body.stmts@.len(), part, id);
                }
            },
            HStmt::Block(b) => {
                if stmts_hold(b.stmts, b.stmts@.len(), part) {
                    assert(!analysis::block_mentions(b, id));
                    lemma_not_released_stmts(b.stmts, b.stmts@.len(), part, id);
                }
            },
            HStmt::Unsafe(b) => {
                if stmts_hold(b.stmts, b.stmts@.len(), part) {
                    assert(!analysis::block_mentions(b, id));
                    lemma_not_released_stmts(b.stmts, b.stmts@.len(), part, id);
                }
            },
            HStmt::ForC { init, cond, step, body } => {
                if stmt_holds(*init, part) {
                    lemma_not_released_stmt(*init, part, id);
                } else if holds_stmt(cond, part) {
                    lemma_not_released(cond, part, id);
                } else if stmt_holds(*step, part) {
                    lemma_not_released_stmt(*step, part, id);
                } else if stmts_hold(body.stmts, body.stmts@.len(), part) {
                    assert(!analysis::block_mentions(body, id));
                    lemma_not_released_stmts(body.stmts, body.stmts@.len(), part, id);
                }
            },
            HStmt::ForEach { src, body, .. } => {
                if holds_stmt(src, part) {
                    lemma_not_released(src, part, id);
                } else if stmts_hold(body.stmts, body.stmts@.len(), part) {
                    assert(!analysis::block_mentions(body, id));
                    lemma_not_released_stmts(body.stmts, body.stmts@.len(), part, id);
                }
            },
            HStmt::Break | HStmt::Continue => {
                
            },
        }
    }
}

/// An expression that is not said to mention a local or a global holds no use of it at any
/// depth, and no return in it releases it. A use of the local is a mention of it.
pub proof fn law_mentions_are_found(e: HExpr, id: Mention)
    ensures
        !analysis::mentions(e, id) ==> forall|p: HExpr| #[trigger] scan_laws::occurs(e, p)
            ==> !is_mention(p, id),
        !analysis::mentions(e, id) ==> forall|t: HStmt| #[trigger] holds_stmt(e, t) ==> !releases(t,
            id),
        is_mention(e, id) ==> analysis::mentions(e, id),
{
    if !analysis::mentions(e, id) {
        assert forall|p: HExpr| #[trigger] scan_laws::occurs(e, p) implies !is_mention(p, id) by {
            lemma_not_read(e, p, id);
        }
        assert forall|t: HStmt| #[trigger] holds_stmt(e, t) implies !releases(t, id) by {
            lemma_not_released(e, t, id);
        }
    }
}

} // verus!
