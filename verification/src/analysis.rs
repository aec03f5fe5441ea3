//! Questions about expressions and statements that decide how they are lowered.
use vstd::prelude::*;

use crate::hir::{HAssignOp, HBinOp, HBlock, HExpr, HExprKind, HMatchArm, HStmt, HType, LocalId};

verus! {

/// The proven upper bound of a loop counter.
#[derive(Debug, Clone, Copy, PartialEq, Eq, Structural)]
pub enum BceBound {
    /// The counter stays in `[0, N)` for a constant N.
    Const(i64),
    /// The counter stays in `[0, len)` of the slice or vector in this local.
    SliceLen(u32),
}

/// The local at the root of a place, behind fields, elements and dereferences.
pub open spec fn root_of(e: HExpr) -> Option<u32>
    decreases e,
{
    match e.kind {
        HExprKind::Local(id) => Some(id.0),
        HExprKind::Field { base, .. } => root_of(*base),
        HExprKind::Index { base, .. } => root_of(*base),
        HExprKind::Unwrap { expr, .. } => root_of(*expr),
        HExprKind::DerefRef(expr) => root_of(*expr),
        _ => None,
    }
}

/// The root local of a place, if it bottoms out in one.
pub fn place_root_local(e: &HExpr) -> (r: Option<u32>)
    ensures
        r == root_of(*e),
    decreases e,
{
    match &e.kind {
        HExprKind::Local(id) => Some(id.0),
        HExprKind::Field { base, .. } => place_root_local(base),
        HExprKind::Index { base, .. } => place_root_local(base),
        HExprKind::Unwrap { expr, .. } => place_root_local(expr),
        HExprKind::DerefRef(expr) => place_root_local(expr),
        _ => None,
    }
}

/// Is the place's root the local `iv`?
pub fn place_root_is(e: &HExpr, iv: u32) -> (r: bool)
    ensures
        r == (root_of(*e) == Some(iv)),
{
    match place_root_local(e) {
        Some(id) => id == iv,
        None => false,
    }
}

/// What an expression is searched for.
#[derive(Debug, Clone, Copy, PartialEq, Eq, Structural)]
pub enum Mention {
    /// The local with this number.
    Local(u32),
    /// A module-level variable, whichever it is.
    Global,
}

/// The expression mentions `id` somewhere.
pub open spec fn mentions(e: HExpr, id: Mention) -> bool
    decreases e, 0nat,
{
    match e.kind {
        HExprKind::Local(l) => id == Mention::Local(l.0),
        HExprKind::GlobalRef(_) => id == Mention::Global,
        HExprKind::Field { base, .. } => mentions(*base, id),
        HExprKind::Index { base, idx } => mentions(*base, id) || mentions(*idx, id),
        HExprKind::Unwrap { expr, .. } => mentions(*expr, id),
        HExprKind::Un { expr, .. } => mentions(*expr, id),
        HExprKind::Cast { expr, .. } => mentions(*expr, id),
        HExprKind::CheckedCast { expr, .. } => mentions(*expr, id),
        HExprKind::DropWrite(expr) => mentions(*expr, id),
        HExprKind::DerefRef(expr) => mentions(*expr, id),
        HExprKind::HeapAlloc(expr) => mentions(*expr, id),
        HExprKind::Free(expr) => mentions(*expr, id),
        HExprKind::SliceLen(expr) => mentions(*expr, id),
        HExprKind::EnumTag(expr) => mentions(*expr, id),
        HExprKind::ArrayToSlice { base, .. } => mentions(*base, id),
        HExprKind::AddrOfRef { place, .. } => mentions(*place, id),
        HExprKind::Bin { lhs, rhs, .. } => mentions(*lhs, id) || mentions(*rhs, id),
        HExprKind::Call { args, .. } => any_mentions(args, args@.len(), id),
        HExprKind::InlineCall { args, .. } => any_mentions(args, args@.len(), id),
        HExprKind::CallIndirect { callee, args } => mentions(*callee, id) || any_mentions(
            args,
            args@.len(),
            id,
        ),
        HExprKind::Struct { fields, .. } => any_field_mentions(fields, fields@.len(), id),
        HExprKind::VariantCtor { fields, .. } => any_field_mentions(fields, fields@.len(), id),
        HExprKind::ArrayLit(es) => any_mentions(es, es@.len(), id),
        HExprKind::Closure { env_values, .. } => any_mentions(env_values, env_values@.len(), id),
        HExprKind::Transfer(inner) => mentions(*inner, id),
        HExprKind::Match { scrutinee, arms, .. } => mentions(*scrutinee, id) || any_arm_mentions(
            arms,
            arms@.len(),
            id,
        ),
        _ => false,
    }
}

/// One of the first `n` expressions mentions `id`.
pub open spec fn any_mentions(v: Vec<HExpr>, n: nat, id: Mention) -> bool
    decreases v, n,
{
    n > 0 && n <= v@.len() && (any_mentions(v, (n - 1) as nat, id) || mentions(v@[n - 1], id))
}

/// One of the first `n` field values mentions `id`.
pub open spec fn any_field_mentions(v: Vec<(usize, HExpr)>, n: nat, id: Mention) -> bool
    decreases v, n,
{
    n > 0 && n <= v@.len() && (any_field_mentions(v, (n - 1) as nat, id) || mentions(
        v@[n - 1].1,
        id,
    ))
}

/// The guard, a statement or the value of one of the first `n` arms mentions `id`.
pub open spec fn any_arm_mentions(v: Vec<HMatchArm>, n: nat, id: Mention) -> bool
    decreases v, n,
{
    n > 0 && n <= v@.len() && (any_arm_mentions(v, (n - 1) as nat, id) || (match v@[n - 1].guard {
        Some(g) => mentions(g, id),
        None => false,
    }) || (match v@[n - 1].value {
        Some(x) => mentions(x, id),
        None => false,
    }) || any_stmt_mentions(v@[n - 1].body.stmts, v@[n - 1].body.stmts@.len(), id))
}

/// The list names the local that is looked for.
pub open spec fn lists(ids: Seq<LocalId>, id: Mention) -> bool {
    match id {
        Mention::Local(k) => ids.contains(LocalId(k)),
        Mention::Global => false,
    }
}

/// A statement of the block, or what its end clears and releases, mentions `id`.
pub open spec fn block_mentions(b: HBlock, id: Mention) -> bool
    decreases b, 0nat,
{
    any_stmt_mentions(b.stmts, b.stmts@.len(), id) || lists(b.ptr_nulls@, id) || lists(
        b.heap_to_free@,
        id,
    )
}

/// The statement mentions `id`.
pub open spec fn stmt_mentions(s: HStmt, id: Mention) -> bool
    decreases s, 0nat,
{
    match s {
        HStmt::Let { init, .. } => mentions(init, id),
        HStmt::Assign { place, value, .. } => mentions(place, id) || mentions(value, id),
        HStmt::ExprStmt(e) => mentions(e, id),
        HStmt::Return { value, heap_drops } => lists(heap_drops@, id) || (match value {
            Some(v) => mentions(v, id),
            None => false,
        }),
        HStmt::Propagate { value } => match value {
            Some(v) => mentions(v, id),
            None => false,
        },
        HStmt::If { cond, then_b, else_b } => mentions(cond, id) || block_mentions(then_b, id) || (
        match else_b {
            Some(b) => block_mentions(b, id),
            None => false,
        }),
        HStmt::While { cond, body } => mentions(cond, id) || block_mentions(body, id),
        HStmt::Block(b) => block_mentions(b, id),
        HStmt::Unsafe(b) => block_mentions(b, id),
        HStmt::ForC { init, cond, step, body } => stmt_mentions(*init, id) || mentions(cond, id)
            || stmt_mentions(*step, id) || block_mentions(body, id),
        HStmt::ForEach { src, body, .. } => mentions(src, id) || block_mentions(body, id),
        HStmt::Break | HStmt::Continue => false,
    }
}

/// One of the first `n` statements mentions `id`.
pub open spec fn any_stmt_mentions(v: Vec<HStmt>, n: nat, id: Mention) -> bool
    decreases v, n,
{
    n > 0 && n <= v@.len() && (any_stmt_mentions(v, (n - 1) as nat, id) || stmt_mentions(
        v@[n - 1],
        id,
    ))
}

/// The expression mentions the local with number `id`.
pub open spec fn reads_local(e: HExpr, id: u32) -> bool {
    mentions(e, Mention::Local(id))
}

/// Does `e` mention `id`?
pub fn expr_mentions(e: &HExpr, id: Mention) -> (r: bool)
    ensures
        r == mentions(*e, id),
    decreases e, 0nat,
{
    match &e.kind {
        HExprKind::Local(l) => id == Mention::Local(l.0),
        HExprKind::GlobalRef(_) => id == Mention::Global,
        HExprKind::Field { base, .. } => expr_mentions(base, id),
        HExprKind::Index { base, idx } => expr_mentions(base, id) || expr_mentions(
            idx,
            id,
        ),
        HExprKind::Unwrap { expr, .. } => expr_mentions(expr, id),
        HExprKind::Un { expr, .. } => expr_mentions(expr, id),
        HExprKind::Cast { expr, .. } => expr_mentions(expr, id),
        HExprKind::CheckedCast { expr, .. } => expr_mentions(expr, id),
        HExprKind::DropWrite(expr) => expr_mentions(expr, id),
        HExprKind::DerefRef(expr) => expr_mentions(expr, id),
        HExprKind::HeapAlloc(expr) => expr_mentions(expr, id),
        HExprKind::Free(expr) => expr_mentions(expr, id),
        HExprKind::SliceLen(expr) => expr_mentions(expr, id),
        HExprKind::EnumTag(expr) => expr_mentions(expr, id),
        HExprKind::ArrayToSlice { base, .. } => expr_mentions(base, id),
        HExprKind::AddrOfRef { place, .. } => expr_mentions(place, id),
        HExprKind::Bin { lhs, rhs, .. } => expr_mentions(lhs, id) || expr_mentions(
            rhs,
            id,
        ),
        HExprKind::Call { args, .. } => exprs_mention(args, id),
        HExprKind::InlineCall { args, .. } => exprs_mention(args, id),
        HExprKind::CallIndirect { callee, args } => expr_mentions(callee, id)
            || exprs_mention(args, id),
        HExprKind::Struct { fields, .. } => fields_mention(fields, id),
        HExprKind::VariantCtor { fields, .. } => fields_mention(fields, id),
        HExprKind::ArrayLit(es) => exprs_mention(es, id),
        HExprKind::Closure { env_values, .. } => exprs_mention(env_values, id),
        HExprKind::Transfer(inner) => expr_mentions(inner, id),
        HExprKind::Match { scrutinee, arms, .. } => expr_mentions(scrutinee, id)
            || arms_mention(arms, id),
        _ => false,
    }
}

fn exprs_mention(v: &Vec<HExpr>, id: Mention) -> (r: bool)
    ensures
        r == any_mentions(*v, v@.len(), id),
    decreases v, v@.len(),
{
    let mut i: usize = 0;
    let mut found: bool = false;
    while i < v.len()
        invariant
            i <= v@.len(),
            found == any_mentions(*v, i as nat, id),
        decreases v@.len() - i,
    {
        found = found || expr_mentions(&v[i], id);
        i += 1;
    }
    found
}

fn fields_mention(v: &Vec<(usize, HExpr)>, id: Mention) -> (r: bool)
    ensures
        r == any_field_mentions(*v, v@.len(), id),
    decreases v, v@.len(),
{
    let mut i: usize = 0;
    let mut found: bool = false;
    while i < v.len()
        invariant
            i <= v@.len(),
            found == any_field_mentions(*v, i as nat, id),
        decreases v@.len() - i,
    {
        found = found || expr_mentions(&v[i].1, id);
        i += 1;
    }
    found
}

fn arms_mention(v: &Vec<HMatchArm>, id: Mention) -> (r: bool)
    ensures
        r == any_arm_mentions(*v, v@.len(), id),
    decreases v, v@.len(),
{
    let mut i: usize = 0;
    let mut found: bool = false;
    while i < v.len()
        invariant
            i <= v@.len(),
            found == any_arm_mentions(*v, i as nat, id),
        decreases v@.len() - i,
    {
        let arm: &HMatchArm = &v[i];
        let in_guard: bool = match &arm.guard {
            Some(g) => expr_mentions(g, id),
            None => false,
        };
        let in_value: bool = match &arm.value {
            Some(x) => expr_mentions(x, id),
            None => false,
        };
        found = found || in_guard || in_value || stmts_mention(&arm.body.stmts, id);
        i += 1;
    }
    found
}

fn list_mentions(ids: &Vec<LocalId>, id: Mention) -> (r: bool)
    ensures
        r == lists(ids@, id),
{
    let k: u32 = match id {
        Mention::Local(k) => k,
        Mention::Global => {
            return false;
        },
    };
    let total: usize = ids.len();
    let mut i: usize = 0;
    while i < total
        invariant
            i <= total,
            total == ids@.len(),
            id == Mention::Local(k),
            forall|j: int| 0 <= j < i ==> ids@[j] != LocalId(k),
        decreases total - i,
    {
        if ids[i].0 == k {
            assert(ids@[i as int] == LocalId(k));
            return true;
        }
        i += 1;
    }
    false
}

fn block_has_mention(b: &HBlock, id: Mention) -> (r: bool)
    ensures
        r == block_mentions(*b, id),
    decreases b, 0nat,
{
    stmts_mention(&b.stmts, id) || list_mentions(&b.ptr_nulls, id) || list_mentions(
        &b.heap_to_free,
        id,
    )
}

fn stmt_has_mention(s: &HStmt, id: Mention) -> (r: bool)
    ensures
        r == stmt_mentions(*s, id),
    decreases s, 0nat,
{
    match s {
        HStmt::Let { init, .. } => expr_mentions(init, id),
        HStmt::Assign { place, value, .. } => expr_mentions(place, id) || expr_mentions(value, id),
        HStmt::ExprStmt(e) => expr_mentions(e, id),
        HStmt::Return { value, heap_drops } => {
            let in_value: bool = match value {
                Some(v) => expr_mentions(v, id),
                None => false,
            };
            list_mentions(heap_drops, id) || in_value
        },
        HStmt::Propagate { value } => match value {
            Some(v) => expr_mentions(v, id),
            None => false,
        },
        HStmt::If { cond, then_b, else_b } => {
            let in_else: bool = match else_b {
                Some(b) => block_has_mention(b, id),
                None => false,
            };
            expr_mentions(cond, id) || block_has_mention(then_b, id) || in_else
        },
        HStmt::While { cond, body } => expr_mentions(cond, id) || block_has_mention(body, id),
        HStmt::Block(b) => block_has_mention(b, id),
        HStmt::Unsafe(b) => block_has_mention(b, id),
        HStmt::ForC { init, cond, step, body } => stmt_has_mention(init, id) || expr_mentions(
            cond,
            id,
        ) || stmt_has_mention(step, id) || block_has_mention(body, id),
        HStmt::ForEach { src, body, .. } => expr_mentions(src, id) || block_has_mention(body, id),
        HStmt::Break | HStmt::Continue => false,
    }
}

fn stmts_mention(v: &Vec<HStmt>, id: Mention) -> (r: bool)
    ensures
        r == any_stmt_mentions(*v, v@.len(), id),
    decreases v, v@.len(),
{
    let mut i: usize = 0;
    let mut found: bool = false;
    while i < v.len()
        invariant
            i <= v@.len(),
            found == any_stmt_mentions(*v, i as nat, id),
        decreases v@.len() - i,
    {
        found = found || stmt_has_mention(&v[i], id);
        i += 1;
    }
    found
}

/// Does `e` mention the local with number `id`?
pub fn expr_contains_local(e: &HExpr, id: u32) -> (r: bool)
    ensures
        r == reads_local(*e, id),
{
    expr_mentions(e, Mention::Local(id))
}

/// The expression reassigns the local `iv` or borrows it for writing.
pub open spec fn expr_mutates(e: HExpr, iv: u32) -> bool
    decreases e, 0nat,
{
    match e.kind {
        HExprKind::AddrOfRef { mutable, place } => (mutable && root_of(*place) == Some(iv))
            || expr_mutates(*place, iv),
        HExprKind::Field { base, .. } => expr_mutates(*base, iv),
        HExprKind::Index { base, idx } => expr_mutates(*base, iv) || expr_mutates(*idx, iv),
        HExprKind::Call { args, .. } => any_mutates(args, args@.len(), iv),
        HExprKind::InlineCall { args, .. } => any_mutates(args, args@.len(), iv),
        HExprKind::CallIndirect { callee, args } => expr_mutates(*callee, iv) || any_mutates(
            args,
            args@.len(),
            iv,
        ),
        HExprKind::Bin { lhs, rhs, .. } => expr_mutates(*lhs, iv) || expr_mutates(*rhs, iv),
        HExprKind::Un { expr, .. } => expr_mutates(*expr, iv),
        HExprKind::Unwrap { expr, .. } => expr_mutates(*expr, iv),
        HExprKind::Cast { expr, .. } => expr_mutates(*expr, iv),
        HExprKind::CheckedCast { expr, .. } => expr_mutates(*expr, iv),
        HExprKind::DropWrite(x) => expr_mutates(*x, iv),
        HExprKind::DerefRef(x) => expr_mutates(*x, iv),
        HExprKind::HeapAlloc(x) => expr_mutates(*x, iv),
        HExprKind::Free(x) => expr_mutates(*x, iv),
        HExprKind::Transfer(x) => expr_mutates(*x, iv),
        HExprKind::SliceLen(x) => expr_mutates(*x, iv),
        HExprKind::EnumTag(x) => expr_mutates(*x, iv),
        HExprKind::ArrayToSlice { base, .. } => expr_mutates(*base, iv),
        HExprKind::Struct { fields, .. } => any_field_mutates(fields, fields@.len(), iv),
        HExprKind::VariantCtor { fields, .. } => any_field_mutates(fields, fields@.len(), iv),
        HExprKind::ArrayLit(es) => any_mutates(es, es@.len(), iv),
        HExprKind::Closure { env_values, .. } => any_mutates(env_values, env_values@.len(), iv),
        HExprKind::Match { scrutinee, arms, .. } => expr_mutates(*scrutinee, iv) || any_arm_mutates(
            arms,
            arms@.len(),
            iv,
        ),
        HExprKind::LitInt(_) | HExprKind::LitFloat(_) | HExprKind::LitBool(_)
        | HExprKind::LitChar(_) | HExprKind::LitStr(_) | HExprKind::LitNull | HExprKind::LitUnit
        | HExprKind::Local(_) | HExprKind::EnumVariant(_, _) | HExprKind::FnRef(_)
        | HExprKind::GlobalRef(_) => false,
    }
}

/// One of the first `n` expressions mutates the local.
pub open spec fn any_mutates(v: Vec<HExpr>, n: nat, iv: u32) -> bool
    decreases v, n,
{
    n > 0 && n <= v@.len() && (any_mutates(v, (n - 1) as nat, iv) || expr_mutates(v@[n - 1], iv))
}

/// One of the first `n` field values mutates the local.
pub open spec fn any_field_mutates(v: Vec<(usize, HExpr)>, n: nat, iv: u32) -> bool
    decreases v, n,
{
    n > 0 && n <= v@.len() && (any_field_mutates(v, (n - 1) as nat, iv) || expr_mutates(
        v@[n - 1].1,
        iv,
    ))
}

/// One of the first `n` arms mutates the local.
pub open spec fn any_arm_mutates(v: Vec<HMatchArm>, n: nat, iv: u32) -> bool
    decreases v, n,
{
    n > 0 && n <= v@.len() && (any_arm_mutates(v, (n - 1) as nat, iv) || (match v@[n - 1].guard {
        Some(g) => expr_mutates(g, iv),
        None => false,
    }) || (match v@[n - 1].value {
        Some(x) => expr_mutates(x, iv),
        None => false,
    }) || any_stmt_mutates(v@[n - 1].body.stmts, v@[n - 1].body.stmts@.len(), iv))
}

/// The statement reassigns the local `iv`, writes through it or borrows it for writing.
pub open spec fn stmt_mutates(s: HStmt, iv: u32) -> bool
    decreases s, 0nat,
{
    match s {
        HStmt::Let { init, .. } => expr_mutates(init, iv),
        HStmt::Assign { place, value, .. } => root_of(place) == Some(iv) || expr_mutates(place, iv)
            || expr_mutates(value, iv),
        HStmt::ExprStmt(e) => expr_mutates(e, iv),
        HStmt::Return { value, .. } => match value {
            Some(v) => expr_mutates(v, iv),
            None => false,
        },
        HStmt::Propagate { value } => match value {
            Some(v) => expr_mutates(v, iv),
            None => false,
        },
        HStmt::If { cond, then_b, else_b } => expr_mutates(cond, iv) || any_stmt_mutates(
            then_b.stmts,
            then_b.stmts@.len(),
            iv,
        ) || (match else_b {
            Some(b) => any_stmt_mutates(b.stmts, b.stmts@.len(), iv),
            None => false,
        }),
        HStmt::While { cond, body } => expr_mutates(cond, iv) || any_stmt_mutates(
            body.stmts,
            body.stmts@.len(),
            iv,
        ),
        HStmt::Block(b) => any_stmt_mutates(b.stmts, b.stmts@.len(), iv),
        HStmt::Unsafe(b) => any_stmt_mutates(b.stmts, b.stmts@.len(), iv),
        HStmt::ForC { init, cond, step, body } => stmt_mutates(*init, iv) || expr_mutates(cond, iv)
            || stmt_mutates(*step, iv) || any_stmt_mutates(body.stmts, body.stmts@.len(), iv),
        HStmt::ForEach { src, body, .. } => expr_mutates(src, iv) || any_stmt_mutates(
            body.stmts,
            body.stmts@.len(),
            iv,
        ),
        HStmt::Break | HStmt::Continue => false,
    }
}

/// One of the first `n` statements mutates the local.
pub open spec fn any_stmt_mutates(v: Vec<HStmt>, n: nat, iv: u32) -> bool
    decreases v, n,
{
    n > 0 && n <= v@.len() && (any_stmt_mutates(v, (n - 1) as nat, iv) || stmt_mutates(
        v@[n - 1],
        iv,
    ))
}

/// A statement of the block mutates the local.
pub open spec fn block_mutates(b: HBlock, iv: u32) -> bool {
    any_stmt_mutates(b.stmts, b.stmts@.len(), iv)
}

/// Does `e` reassign the local `iv` or borrow it for writing?
pub fn expr_mutates_local(e: &HExpr, iv: u32) -> (r: bool)
    ensures
        r == expr_mutates(*e, iv),
    decreases e, 0nat,
{
    match &e.kind {
        HExprKind::AddrOfRef { mutable, place } => (*mutable && place_root_is(place, iv))
            || expr_mutates_local(place, iv),
        HExprKind::Field { base, .. } => expr_mutates_local(base, iv),
        HExprKind::Index { base, idx } => expr_mutates_local(base, iv) || expr_mutates_local(
            idx,
            iv,
        ),
        HExprKind::Call { args, .. } => exprs_mutate_local(args, iv),
        HExprKind::InlineCall { args, .. } => exprs_mutate_local(args, iv),
        HExprKind::CallIndirect { callee, args } => expr_mutates_local(callee, iv)
            || exprs_mutate_local(args, iv),
        HExprKind::Bin { lhs, rhs, .. } => expr_mutates_local(lhs, iv) || expr_mutates_local(
            rhs,
            iv,
        ),
        HExprKind::Un { expr, .. } => expr_mutates_local(expr, iv),
        HExprKind::Unwrap { expr, .. } => expr_mutates_local(expr, iv),
        HExprKind::Cast { expr, .. } => expr_mutates_local(expr, iv),
        HExprKind::CheckedCast { expr, .. } => expr_mutates_local(expr, iv),
        HExprKind::DropWrite(x) => expr_mutates_local(x, iv),
        HExprKind::DerefRef(x) => expr_mutates_local(x, iv),
        HExprKind::HeapAlloc(x) => expr_mutates_local(x, iv),
        HExprKind::Free(x) => expr_mutates_local(x, iv),
        HExprKind::Transfer(x) => expr_mutates_local(x, iv),
        HExprKind::SliceLen(x) => expr_mutates_local(x, iv),
        HExprKind::EnumTag(x) => expr_mutates_local(x, iv),
        HExprKind::ArrayToSlice { base, .. } => expr_mutates_local(base, iv),
        HExprKind::Struct { fields, .. } => fields_mutate_local(fields, iv),
        HExprKind::VariantCtor { fields, .. } => fields_mutate_local(fields, iv),
        HExprKind::ArrayLit(es) => exprs_mutate_local(es, iv),
        HExprKind::Closure { env_values, .. } => exprs_mutate_local(env_values, iv),
        HExprKind::Match { scrutinee, arms, .. } => expr_mutates_local(scrutinee, iv)
            || arms_mutate_local(arms, iv),
        HExprKind::LitInt(_) | HExprKind::LitFloat(_) | HExprKind::LitBool(_)
        | HExprKind::LitChar(_) | HExprKind::LitStr(_) | HExprKind::LitNull | HExprKind::LitUnit
        | HExprKind::Local(_) | HExprKind::EnumVariant(_, _) | HExprKind::FnRef(_)
        | HExprKind::GlobalRef(_) => false,
    }
}

fn exprs_mutate_local(v: &Vec<HExpr>, iv: u32) -> (r: bool)
    ensures
        r == any_mutates(*v, v@.len(), iv),
    decreases v, v@.len(),
{
    let mut i: usize = 0;
    let mut found: bool = false;
    while i < v.len()
        invariant
            i <= v@.len(),
            found == any_mutates(*v, i as nat, iv),
        decreases v@.len() - i,
    {
        found = found || expr_mutates_local(&v[i], iv);
        i += 1;
    }
    found
}

fn fields_mutate_local(v: &Vec<(usize, HExpr)>, iv: u32) -> (r: bool)
    ensures
        r == any_field_mutates(*v, v@.len(), iv),
    decreases v, v@.len(),
{
    let mut i: usize = 0;
    let mut found: bool = false;
    while i < v.len()
        invariant
            i <= v@.len(),
            found == any_field_mutates(*v, i as nat, iv),
        decreases v@.len() - i,
    {
        found = found || expr_mutates_local(&v[i].1, iv);
        i += 1;
    }
    found
}

fn arms_mutate_local(v: &Vec<HMatchArm>, iv: u32) -> (r: bool)
    ensures
        r == any_arm_mutates(*v, v@.len(), iv),
    decreases v, v@.len(),
{
    let mut i: usize = 0;
    let mut found: bool = false;
    while i < v.len()
        invariant
            i <= v@.len(),
            found == any_arm_mutates(*v, i as nat, iv),
        decreases v@.len() - i,
    {
        let arm: &HMatchArm = &v[i];
        let in_guard: bool = match &arm.guard {
            Some(g) => expr_mutates_local(g, iv),
            None => false,
        };
        let in_value: bool = match &arm.value {
            Some(x) => expr_mutates_local(x, iv),
            None => false,
        };
        found = found || in_guard || in_value || stmts_mutate_local(&arm.body.stmts, iv);
        i += 1;
    }
    found
}

/// Does the statement reassign `iv`, write through it or borrow it for writing?
pub fn stmt_mutates_local(s: &HStmt, iv: u32) -> (r: bool)
    ensures
        r == stmt_mutates(*s, iv),
    decreases s, 0nat,
{
    match s {
        HStmt::Let { init, .. } => expr_mutates_local(init, iv),
        HStmt::Assign { place, value, .. } => place_root_is(place, iv) || expr_mutates_local(
            place,
            iv,
        ) || expr_mutates_local(value, iv),
        HStmt::ExprStmt(e) => expr_mutates_local(e, iv),
        HStmt::Return { value, .. } => match value {
            Some(v) => expr_mutates_local(v, iv),
            None => false,
        },
        HStmt::Propagate { value } => match value {
            Some(v) => expr_mutates_local(v, iv),
            None => false,
        },
        HStmt::If { cond, then_b, else_b } => {
            let in_else: bool = match else_b {
                Some(b) => stmts_mutate_local(&b.stmts, iv),
                None => false,
            };
            expr_mutates_local(cond, iv) || stmts_mutate_local(&then_b.stmts, iv) || in_else
        },
        HStmt::While { cond, body } => expr_mutates_local(cond, iv) || stmts_mutate_local(
            &body.stmts,
            iv,
        ),
        HStmt::Block(b) => stmts_mutate_local(&b.stmts, iv),
        HStmt::Unsafe(b) => stmts_mutate_local(&b.stmts, iv),
        HStmt::ForC { init, cond, step, body } => stmt_mutates_local(init, iv)
            || expr_mutates_local(cond, iv) || stmt_mutates_local(step, iv) || stmts_mutate_local(
            &body.stmts,
            iv,
        ),
        HStmt::ForEach { src, body, .. } => expr_mutates_local(src, iv) || stmts_mutate_local(
            &body.stmts,
            iv,
        ),
        HStmt::Break | HStmt::Continue => false,
    }
}

fn stmts_mutate_local(v: &Vec<HStmt>, iv: u32) -> (r: bool)
    ensures
        r == any_stmt_mutates(*v, v@.len(), iv),
    decreases v, v@.len(),
{
    let mut i: usize = 0;
    let mut found: bool = false;
    while i < v.len()
        invariant
            i <= v@.len(),
            found == any_stmt_mutates(*v, i as nat, iv),
        decreases v@.len() - i,
    {
        found = found || stmt_mutates_local(&v[i], iv);
        i += 1;
    }
    found
}

/// Does a statement of the block mutate the local?
pub fn block_mutates_local(b: &HBlock, iv: u32) -> (r: bool)
    ensures
        r == block_mutates(*b, iv),
{
    stmts_mutate_local(&b.stmts, iv)
}

/// The body leaves alone what `src` is read from: the local that the place is rooted in, or
/// for a source that is no place of a local, everything that it mentions.
pub open spec fn source_kept(locals: nat, src: HExpr, body: HBlock) -> bool {
    match root_of(src) {
        Some(root) => !block_mutates(body, root),
        None => !mentions(src, Mention::Global) && forall|id: u32|
            id < locals && #[trigger] reads_local(src, id) ==> !block_mutates(body, id),
    }
}

/// Does the body leave alone what `src` is read from?
pub fn keeps_source(locals: usize, src: &HExpr, body: &HBlock) -> (r: bool)
    ensures
        r == source_kept(locals as nat, *src, *body),
{
    match place_root_local(src) {
        Some(root) => !block_mutates_local(body, root),
        None => {
            if expr_mentions(src, Mention::Global) {
                return false;
            }
            let mut i: u32 = 0;
            while (i as usize) < locals && i < u32::MAX
                invariant
                    i <= locals,
                    forall|id: u32|
                        id < i && #[trigger] reads_local(*src, id) ==> !block_mutates(*body, id),
                    root_of(*src) is None,
                ensures
                    i == locals || (i == u32::MAX && i < locals),
                decreases locals - i,
            {
                if expr_contains_local(src, i) && block_mutates_local(body, i) {
                    return false;
                }
                i += 1;
            }
            if (i as usize) < locals {
                return !(expr_contains_local(src, i) && block_mutates_local(body, i));
            }
            true
        },
    }
}

/// A literal integer that is not negative.
pub open spec fn starts_at_zero_or_above(e: HExpr) -> bool {
    match e.kind {
        HExprKind::LitInt(n) => n >= 0,
        _ => false,
    }
}

/// A plain use of that local.
pub open spec fn is_the_local(e: HExpr, local: LocalId) -> bool {
    match e.kind {
        HExprKind::Local(id) => id == local,
        _ => false,
    }
}

/// The counter of a loop over a range and the bound that it stays below: it
/// starts at a literal that is not negative, its guard compares it with a literal
/// or with the length of a slice or vector that the body leaves alone, and
/// the body leaves the counter alone.
pub open spec fn counter_bound(init: HStmt, cond: HExpr, body: HBlock) -> Option<(u32, BceBound)> {
    match (init, cond.kind) {
        (
            HStmt::Let { local, init: first },
            HExprKind::Bin { op, lhs, rhs },
        ) => if starts_at_zero_or_above(first) && is_the_local(*lhs, local) && !block_mutates(
            body,
            local.0,
        ) {
            match (op, rhs.kind) {
                (HBinOp::Lt, HExprKind::LitInt(b)) => if b >= 0 {
                    Some((local.0, BceBound::Const(b)))
                } else {
                    None
                },
                (HBinOp::Le, HExprKind::LitInt(b)) => if 0 <= b < i64::MAX {
                    Some((local.0, BceBound::Const((b + 1) as i64)))
                } else {
                    None
                },
                (HBinOp::Lt, HExprKind::SliceLen(inner)) => match inner.kind {
                    HExprKind::Local(s) => if !block_mutates(body, s.0) {
                        Some((local.0, BceBound::SliceLen(s.0)))
                    } else {
                        None
                    },
                    _ => None,
                },
                _ => None,
            }
        } else {
            None
        },
        _ => None,
    }
}

/// The counter that a loop keeps within `[0, bound)`, if it has one.
pub fn forrange_bound(init: &HStmt, cond: &HExpr, body: &HBlock) -> (r: Option<(u32, BceBound)>)
    ensures
        r == counter_bound(*init, *cond, *body),
{
    let iv: u32 = match init {
        HStmt::Let { local, init } => match &init.kind {
            HExprKind::LitInt(n) => if *n >= 0 {
                local.0
            } else {
                return None;
            },
            _ => {
                return None;
            },
        },
        _ => {
            return None;
        },
    };
    match &cond.kind {
        HExprKind::Bin { op, lhs, rhs } => {
            let is_counter: bool = match &lhs.kind {
                HExprKind::Local(id) => id.0 == iv,
                _ => false,
            };
            if !is_counter {
                return None;
            }
            let bound: BceBound = match (op, &rhs.kind) {
                (HBinOp::Lt, HExprKind::LitInt(b)) => if *b >= 0 {
                    BceBound::Const(*b)
                } else {
                    return None;
                },
                (HBinOp::Le, HExprKind::LitInt(b)) => if *b >= 0 && *b < i64::MAX {
                    BceBound::Const(*b + 1)
                } else {
                    return None;
                },
                (HBinOp::Lt, HExprKind::SliceLen(inner)) => match &inner.kind {
                    HExprKind::Local(s) => if !block_mutates_local(body, s.0) {
                        BceBound::SliceLen(s.0)
                    } else {
                        return None;
                    },
                    _ => {
                        return None;
                    },
                },
                _ => {
                    return None;
                },
            };
            if block_mutates_local(body, iv) {
                return None;
            }
            Some((iv, bound))
        },
        _ => None,
    }
}

/// The place is rooted in something owned: a local or a global, or what an owning
/// pointer or a writable borrow leads to. Moving out of it clears it.
pub open spec fn owned_place(e: HExpr) -> bool
    decreases e, 0nat,
{
    match e.kind {
        HExprKind::Field { base, .. } => owned_base(*base),
        HExprKind::Index { base, .. } => owned_base(*base),
        HExprKind::Unwrap { expr, .. } => expr.ty is OwnPtr || expr.ty is Heap,
        HExprKind::Local(_) => true,
        HExprKind::GlobalRef(_) => true,
        _ => false,
    }
}

/// A field or element of `base` is owned.
pub open spec fn owned_base(base: HExpr) -> bool
    decreases base, 1nat,
{
    match base.ty {
        HType::Struct(_) | HType::Enum(_) | HType::Array { .. } | HType::Vec { .. } => owned_place(
            base,
        ),
        HType::Ref { mutable, .. } => mutable && owned_place(base),
        HType::OwnPtr { .. } => true,
        HType::Heap { .. } => true,
        _ => false,
    }
}

/// Is the place rooted in something owned?
pub fn move_out_owned_place(e: &HExpr) -> (r: bool)
    ensures
        r == owned_place(*e),
    decreases e, 0nat,
{
    match &e.kind {
        HExprKind::Field { base, .. } => owned_parent(base),
        HExprKind::Index { base, .. } => owned_parent(base),
        HExprKind::Unwrap { expr, .. } => match &expr.ty {
            HType::OwnPtr { .. } | HType::Heap { .. } => true,
            _ => false,
        },
        HExprKind::Local(_) => true,
        HExprKind::GlobalRef(_) => true,
        _ => false,
    }
}

fn owned_parent(base: &HExpr) -> (r: bool)
    ensures
        r == owned_base(*base),
    decreases base, 1nat,
{
    match &base.ty {
        HType::Struct(_) | HType::Enum(_) | HType::Array { .. } | HType::Vec { .. } =>
            move_out_owned_place(base),
        HType::Ref { mutable, .. } => *mutable && move_out_owned_place(base),
        HType::OwnPtr { .. } => true,
        HType::Heap { .. } => true,
        _ => false,
    }
}

/// What a value adds to the counter when it is assigned to it: `counter + n` or
/// `n + counter` with a literal `n`.
pub open spec fn sum_rise(e: HExpr, counter: u32) -> int {
    match e.kind {
        HExprKind::Bin { op, lhs, rhs } => match (op, lhs.kind, rhs.kind) {
            (HBinOp::Add, HExprKind::Local(id), HExprKind::LitInt(n)) => if id.0 == counter {
                n as int
            } else {
                0
            },
            (HBinOp::Add, HExprKind::LitInt(n), HExprKind::Local(id)) => if id.0 == counter {
                n as int
            } else {
                0
            },
            _ => 0,
        },
        _ => 0,
    }
}

/// What the step of a loop adds to the counter: the literal in `i += n` or `i = i + n`, and
/// zero for a step of another form.
pub open spec fn rise(step: HStmt, counter: u32) -> int {
    match step {
        HStmt::Assign { op, place, value } => if is_the_local(place, LocalId(counter)) {
            match op {
                HAssignOp::Add => match value.kind {
                    HExprKind::LitInt(n) => n as int,
                    _ => 0,
                },
                HAssignOp::Assign => sum_rise(value, counter),
                _ => 0,
            }
        } else {
            0
        },
        _ => 0,
    }
}

fn sum_of(e: &HExpr, counter: u32) -> (r: i64)
    ensures
        r == sum_rise(*e, counter),
{
    match &e.kind {
        HExprKind::Bin { op, lhs, rhs } => match (op, &lhs.kind, &rhs.kind) {
            (HBinOp::Add, HExprKind::Local(id), HExprKind::LitInt(n)) => if id.0 == counter {
                *n
            } else {
                0
            },
            (HBinOp::Add, HExprKind::LitInt(n), HExprKind::Local(id)) => if id.0 == counter {
                *n
            } else {
                0
            },
            _ => 0,
        },
        _ => 0,
    }
}

/// What the step of a loop adds to the counter.
pub fn step_rise(step: &HStmt, counter: u32) -> (r: i64)
    ensures
        r == rise(*step, counter),
{
    match step {
        HStmt::Assign { op, place, value } => match &place.kind {
            HExprKind::Local(id) => if id.0 == counter {
                match op {
                    HAssignOp::Add => match &value.kind {
                        HExprKind::LitInt(n) => *n,
                        _ => 0,
                    },
                    HAssignOp::Assign => sum_of(value, counter),
                    _ => 0,
                }
            } else {
                0
            },
            _ => 0,
        },
        _ => 0,
    }
}

/// The counter that a loop is known to keep within its bound: the step raises it.
pub open spec fn loop_bound(
    init: HStmt,
    cond: HExpr,
    step: HStmt,
    body: HBlock,
) -> Option<(u32, BceBound)> {
    match counter_bound(init, cond, body) {
        Some(c) => if rise(step, c.0) > 0 { Some(c) } else { None },
        None => None,
    }
}

/// The counter that a loop is known to keep within its bound, if it has one.
pub fn known_counter(
    init: &HStmt,
    cond: &HExpr,
    step: &HStmt,
    body: &HBlock,
) -> (r: Option<(u32, BceBound)>)
    ensures
        r == loop_bound(*init, *cond, *step, *body),
{
    match forrange_bound(init, cond, body) {
        Some(c) => if step_rise(step, c.0) > 0 {
            Some(c)
        } else {
            None
        },
        None => None,
    }
}

/// The literal that the counter of a loop starts at.
pub open spec fn counter_start(init: HStmt) -> int {
    match init {
        HStmt::Let { init: first, .. } => match first.kind {
            HExprKind::LitInt(n) => n as int,
            _ => 0,
        },
        _ => 0,
    }
}

/// The value of the counter after the step was taken `k` times.
pub open spec fn counter_after(init: HStmt, step: HStmt, counter: u32, k: nat) -> int
    decreases k,
{
    if k == 0 {
        counter_start(init)
    } else {
        counter_after(init, step, counter, (k - 1) as nat) + rise(step, counter)
    }
}

/// The guard of a loop lets the value `v` of the counter into the body, where `len` is the
/// length of the slice or vector in the guard.
pub open spec fn lets_in(cond: HExpr, v: int, len: int) -> bool {
    match cond.kind {
        HExprKind::Bin { op, rhs, .. } => match (op, rhs.kind) {
            (HBinOp::Lt, HExprKind::LitInt(b)) => v < b,
            (HBinOp::Le, HExprKind::LitInt(b)) => v <= b,
            (HBinOp::Lt, HExprKind::SliceLen(_)) => v < len,
            _ => true,
        },
        _ => true,
    }
}

/// A counter is known only under a step that adds a positive literal to it.
pub proof fn law_known_counters_rise(
    init: HStmt,
    cond: HExpr,
    step: HStmt,
    body: HBlock,
    counter: u32,
    bound: BceBound,
)
    requires
        loop_bound(init, cond, step, body) == Some((counter, bound)),
    ensures
        counter_bound(init, cond, body) == Some((counter, bound)),
        rise(step, counter) > 0,
        step matches HStmt::Assign { place, .. } && is_the_local(place, LocalId(counter)),
{
}

/// A known counter is within its bound whenever the body is entered, however often the step
/// was taken before.
pub proof fn law_known_counters_stay_in_bound(
    init: HStmt,
    cond: HExpr,
    step: HStmt,
    body: HBlock,
    counter: u32,
    bound: BceBound,
    k: nat,
    len: int,
)
    requires
        loop_bound(init, cond, step, body) == Some((counter, bound)),
        lets_in(cond, counter_after(init, step, counter, k), len),
    ensures
        0 <= counter_after(init, step, counter, k),
        match bound {
            BceBound::Const(n) => counter_after(init, step, counter, k) < n,
            BceBound::SliceLen(_) => counter_after(init, step, counter, k) < len,
        },
{
    lemma_counter_rises(init, step, counter, k);
}

proof fn lemma_counter_rises(init: HStmt, step: HStmt, counter: u32, k: nat)
    requires
        rise(step, counter) > 0,
    ensures
        counter_after(init, step, counter, k) >= counter_start(init),
    decreases k,
{
    if k > 0 {
        lemma_counter_rises(init, step, counter, (k - 1) as nat);
    }
}

/// A counter whose range is known starts at zero or above, and the loop's body changes
/// neither it nor the slice that bounds it.
pub proof fn law_known_counters_untouched(
    init: HStmt,
    cond: HExpr,
    body: HBlock,
    counter: u32,
    bound: BceBound,
)
    requires
        counter_bound(init, cond, body) == Some((counter, bound)),
    ensures
        !block_mutates(body, counter),
        match bound {
            BceBound::Const(n) => n >= 0,
            BceBound::SliceLen(s) => !block_mutates(body, s),
        },
        init matches HStmt::Let { local, init: first } && local.0 == counter
            && starts_at_zero_or_above(first),
{
}

} // verus!
