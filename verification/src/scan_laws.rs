//! What the first pass promises: it forgets nothing, and notes whatever the text of a
//! function relies on.
use vstd::prelude::*;

use crate::ctypes;
use crate::hir::{CastKind, HExpr, HExprKind, HFunc, HMatchArm, HStmt, HType, LocalInfo, SymTab};
use crate::scan;
use crate::scan::Noted;

verus! {

/// Everything that `a` knows, `b` knows too.
pub open spec fn covers(b: Noted, a: Noted) -> bool {
    &&& a.slices.subset_of(b.slices)
    &&& a.vecs.subset_of(b.vecs)
    &&& a.traits.subset_of(b.traits)
    &&& a.insts.subset_of(b.insts)
    &&& a.callables.dom().subset_of(b.callables.dom())
    &&& a.refs.subset_of(b.refs)
    &&& a.closures.subset_of(b.closures)
}

proof fn lemma_with_names(s: Set<Seq<char>>, names: Seq<String>, n: nat)
    ensures
        s.subset_of(scan::with_names(s, names, n)),
    decreases n,
{
    if 0 < n <= names.len() {
        lemma_with_names(s, names, (n - 1) as nat);
    }
}

proof fn lemma_named(s: Set<Seq<char>>, names: Seq<String>, n: nat, i: int)
    requires
        0 <= i < n <= names.len(),
    ensures
        scan::with_names(s, names, n).contains(names[i]@),
    decreases n,
{
    if i < n - 1 {
        lemma_named(s, names, (n - 1) as nat, i);
    }
}

/// Noting a type forgets nothing.
pub proof fn law_note_adds(sym: SymTab, t: HType, n: Noted)
    ensures
        covers(scan::note_c(sym, t, n), n),
    decreases t, 0nat,
{
    match t {
        HType::Slice { elem, .. } => law_note_adds(
            sym,
            *elem,
            Noted { slices: n.slices.insert(ctypes::ty_key(sym, *elem)), ..n },
        ),
        HType::Vec { elem } => law_note_adds(
            sym,
            *elem,
            Noted { vecs: n.vecs.insert(ctypes::ty_key(sym, *elem)), ..n },
        ),
        HType::Heap { inner } => law_note_adds(sym, *inner, n),
        HType::Ref { inner, .. } | HType::Ptr { inner, .. } | HType::RawPtr { inner, .. }
        | HType::OwnPtr { inner, .. } => law_note_adds(sym, *inner, n),
        HType::Array { elem, .. } => law_note_adds(sym, *elem, n),
        HType::Dyn { traits } => lemma_with_names(n.traits, traits@, traits@.len()),
        HType::FnPtr { ret, params, ret_key, param_keys } => {
            let n2 = Noted {
                callables: n.callables.insert(ctypes::sig_key(ret_key@, param_keys@), (*ret, params)),
                ..n
            };
            law_note_adds(sym, *ret, n2);
            lemma_notes_add(sym, params, params@.len(), scan::note_c(sym, *ret, n2));
        },
        _ => {},
    }
}

proof fn lemma_notes_add(sym: SymTab, ts: Vec<HType>, k: nat, n: Noted)
    ensures
        covers(scan::notes_c(sym, ts, k, n), n),
    decreases ts, k,
{
    if 0 < k <= ts@.len() {
        lemma_notes_add(sym, ts, (k - 1) as nat, n);
        law_note_adds(sym, ts@[k - 1], scan::notes_c(sym, ts, (k - 1) as nat, n));
    }
}

/// The type `t` is `part` or is made from it.
pub open spec fn holds_type(t: HType, part: HType) -> bool
    decreases t,
{
    t == part || match t {
        HType::Slice { elem, .. } => holds_type(*elem, part),
        HType::Vec { elem } => holds_type(*elem, part),
        HType::Heap { inner } => holds_type(*inner, part),
        HType::Ref { inner, .. } | HType::Ptr { inner, .. } | HType::RawPtr { inner, .. }
        | HType::OwnPtr { inner, .. } => holds_type(*inner, part),
        HType::Array { elem, .. } => holds_type(*elem, part),
        HType::FnPtr { ret, params, .. } => holds_type(*ret, part) || any_holds(
            params,
            params@.len(),
            part,
        ),
        _ => false,
    }
}

/// One of the first `n` types holds the type `part`.
pub open spec fn any_holds(ts: Vec<HType>, n: nat, part: HType) -> bool
    decreases ts, n,
{
    0 < n <= ts@.len() && (any_holds(ts, (n - 1) as nat, part) || holds_type(ts@[n - 1], part))
}

/// The typedef that the spelling of the type relies on is wanted.
pub open spec fn wanted_typedef(sym: SymTab, n: Noted, part: HType) -> bool {
    match part {
        HType::Slice { elem, .. } => n.slices.contains(ctypes::ty_key(sym, *elem)),
        HType::Vec { elem } => n.vecs.contains(ctypes::ty_key(sym, *elem)),
        HType::Dyn { traits } => forall|i: int|
            0 <= i < traits@.len() ==> n.traits.contains((#[trigger] traits@[i])@),
        HType::FnPtr { ret_key, param_keys, .. } => n.callables.dom().contains(
            ctypes::sig_key(ret_key@, param_keys@),
        ),
        _ => true,
    }
}

/// Every slice, vector, trait object and function type within a noted type gets its
/// typedef.
pub proof fn law_note_finds_typedefs(sym: SymTab, t: HType, n: Noted, part: HType)
    requires
        holds_type(t, part),
    ensures
        wanted_typedef(sym, scan::note_c(sym, t, n), part),
    decreases t, 0nat,
{
    match t {
        HType::Slice { elem, .. } => {
            let n2 = Noted { slices: n.slices.insert(ctypes::ty_key(sym, *elem)), ..n };
            law_note_adds(sym, *elem, n2);
            if t != part {
                law_note_finds_typedefs(sym, *elem, n2, part);
            }
        },
        HType::Vec { elem } => {
            let n2 = Noted { vecs: n.vecs.insert(ctypes::ty_key(sym, *elem)), ..n };
            law_note_adds(sym, *elem, n2);
            if t != part {
                law_note_finds_typedefs(sym, *elem, n2, part);
            }
        },
        HType::Heap { inner } => {
            if t != part {
                law_note_finds_typedefs(sym, *inner, n, part);
            }
        },
        HType::Ref { inner, .. } | HType::Ptr { inner, .. } | HType::RawPtr { inner, .. }
        | HType::OwnPtr { inner, .. } => {
            if t != part {
                law_note_finds_typedefs(sym, *inner, n, part);
            }
        },
        HType::Array { elem, .. } => {
            if t != part {
                law_note_finds_typedefs(sym, *elem, n, part);
            }
        },
        HType::Dyn { traits } => {
            assert forall|i: int| 0 <= i < traits@.len() implies scan::with_names(
                n.traits,
                traits@,
                traits@.len(),
            ).contains((#[trigger] traits@[i])@) by {
                lemma_named(n.traits, traits@, traits@.len(), i);
            }
        },
        HType::FnPtr { ret, params, ret_key, param_keys } => {
            let n2 = Noted {
                callables: n.callables.insert(ctypes::sig_key(ret_key@, param_keys@), (*ret, params)),
                ..n
            };
            let mid = scan::note_c(sym, *ret, n2);
            law_note_adds(sym, *ret, n2);
            lemma_notes_add(sym, params, params@.len(), mid);
            if t != part {
                if holds_type(*ret, part) {
                    law_note_finds_typedefs(sym, *ret, n2, part);
                } else {
                    lemma_notes_find(sym, params, params@.len(), mid, part);
                }
            }
        },
        _ => {},
    }
}

proof fn lemma_notes_find(sym: SymTab, ts: Vec<HType>, k: nat, n: Noted, part: HType)
    requires
        any_holds(ts, k, part),
    ensures
        wanted_typedef(sym, scan::notes_c(sym, ts, k, n), part),
    decreases ts, k,
{
    let before = scan::notes_c(sym, ts, (k - 1) as nat, n);
    if any_holds(ts, (k - 1) as nat, part) {
        lemma_notes_find(sym, ts, (k - 1) as nat, n, part);
        law_note_adds(sym, ts@[k - 1], before);
    } else {
        law_note_finds_typedefs(sym, ts@[k - 1], before, part);
    }
}

/// Scanning an expression forgets nothing.
#[verifier::spinoff_prover]
pub proof fn law_scan_adds(sym: SymTab, e: HExpr, n: Noted)
    ensures
        covers(scan::scanned(sym, e, n), scan::note_c(sym, e.ty, n)),
        covers(scan::scanned(sym, e, n), n),
    decreases e, 1nat,
{
    law_note_adds(sym, e.ty, n);
    let n2 = scan::note_c(sym, e.ty, n);
    assert(scan::scanned(sym, e, n) == scan::scanned_parts(sym, e, n2));
    match e.kind {
        HExprKind::Bin { lhs, rhs, .. } => {
            law_scan_adds(sym, *lhs, n2);
            law_scan_adds(sym, *rhs, scan::scanned(sym, *lhs, n2));
        },
        HExprKind::Un { expr, .. } => law_scan_adds(sym, *expr, n2),
        HExprKind::Unwrap { expr, .. } => law_scan_adds(sym, *expr, n2),
        HExprKind::AddrOfRef { place, .. } => law_scan_adds(sym, *place, n2),
        HExprKind::Field { base, .. } => law_scan_adds(sym, *base, n2),
        HExprKind::Index { base, idx } => {
            law_scan_adds(sym, *base, n2);
            law_scan_adds(sym, *idx, scan::scanned(sym, *base, n2));
        },
        HExprKind::Call { args, .. } => lemma_scan_all(sym, args, args@.len(), n2),
        HExprKind::Cast { expr, kind, .. } => {
            let n3 = match kind {
                CastKind::ToDyn { trait_name, struct_id } => Noted {
                    traits: n2.traits.insert(trait_name@),
                    insts: n2.insts.insert((trait_name@, struct_id.0)),
                    ..n2
                },
                _ => n2,
            };
            law_scan_adds(sym, *expr, n3);
        },
        HExprKind::CheckedCast { expr, .. } => law_scan_adds(sym, *expr, n2),
        HExprKind::DropWrite(x) => law_scan_adds(sym, *x, n2),
        HExprKind::ArrayToSlice { base, .. } => law_scan_adds(sym, *base, n2),
        HExprKind::DerefRef(x) => law_scan_adds(sym, *x, n2),
        HExprKind::HeapAlloc(x) => law_scan_adds(sym, *x, n2),
        HExprKind::Free(x) => law_scan_adds(sym, *x, n2),
        HExprKind::CallIndirect { callee, args } => {
            law_scan_adds(sym, *callee, n2);
            lemma_scan_all(sym, args, args@.len(), scan::scanned(sym, *callee, n2));
        },
        HExprKind::InlineCall { args, .. } => lemma_scan_all(sym, args, args@.len(), n2),
        HExprKind::Closure { lifted, env_values, .. } => lemma_scan_all(
            sym,
            env_values,
            env_values@.len(),
            Noted { closures: n2.closures.insert(lifted.0), ..n2 },
        ),
        HExprKind::Transfer(x) => law_scan_adds(sym, *x, n2),
        HExprKind::SliceLen(x) => law_scan_adds(sym, *x, n2),
        HExprKind::EnumTag(x) => law_scan_adds(sym, *x, n2),
        HExprKind::VariantCtor { fields, .. } => lemma_scan_fields(sym, fields, fields@.len(), n2),
        HExprKind::Match { scrutinee, arms, .. } => {
            law_scan_adds(sym, *scrutinee, n2);
            lemma_scan_arms(sym, arms, arms@.len(), scan::scanned(sym, *scrutinee, n2));
        },
        HExprKind::Struct { fields, .. } => lemma_scan_fields(sym, fields, fields@.len(), n2),
        HExprKind::ArrayLit(es) => lemma_scan_all(sym, es, es@.len(), n2),
        _ => {},
    }
}

proof fn lemma_scan_all(sym: SymTab, v: Vec<HExpr>, k: nat, n: Noted)
    ensures
        covers(scan::scanned_all(sym, v, k, n), n),
    decreases v, k,
{
    if 0 < k <= v@.len() {
        lemma_scan_all(sym, v, (k - 1) as nat, n);
        law_scan_adds(sym, v@[k - 1], scan::scanned_all(sym, v, (k - 1) as nat, n));
    }
}

proof fn lemma_scan_fields(sym: SymTab, v: Vec<(usize, HExpr)>, k: nat, n: Noted)
    ensures
        covers(scan::scanned_fields(sym, v, k, n), n),
    decreases v, k,
{
    if 0 < k <= v@.len() {
        lemma_scan_fields(sym, v, (k - 1) as nat, n);
        law_scan_adds(sym, v@[k - 1].1, scan::scanned_fields(sym, v, (k - 1) as nat, n));
    }
}

proof fn lemma_scan_arms(sym: SymTab, v: Vec<HMatchArm>, k: nat, n: Noted)
    ensures
        covers(scan::scanned_arms(sym, v, k, n), n),
    decreases v, k,
{
    if 0 < k <= v@.len() {
        lemma_scan_arms(sym, v, (k - 1) as nat, n);
        let a = v@[k - 1];
        let before = scan::scanned_arms(sym, v, (k - 1) as nat, n);
        let guarded = match a.guard {
            Some(g) => {
                law_scan_adds(sym, g, before);
                scan::scanned(sym, g, before)
            },
            None => before,
        };
        lemma_scan_stmts(sym, a.body.stmts, a.body.stmts@.len(), guarded);
        match a.value {
            Some(x) => law_scan_adds(
                sym,
                x,
                scan::scanned_stmts(sym, a.body.stmts, a.body.stmts@.len(), guarded),
            ),
            None => {},
        }
    }
}

proof fn lemma_scan_stmt(sym: SymTab, s: HStmt, n: Noted)
    ensures
        covers(scan::scanned_stmt(sym, s, n), n),
    decreases s, 0nat,
{
    match s {
        HStmt::Let { init, .. } => {
            law_note_adds(sym, init.ty, n);
            law_scan_adds(sym, init, scan::note_c(sym, init.ty, n));
        },
        HStmt::Assign { place, value, .. } => {
            law_scan_adds(sym, place, n);
            law_scan_adds(sym, value, scan::scanned(sym, place, n));
        },
        HStmt::ExprStmt(e) => law_scan_adds(sym, e, n),
        HStmt::Return { value, .. } => match value {
            Some(e) => law_scan_adds(sym, e, n),
            None => {},
        },
        HStmt::If { cond, then_b, else_b } => {
            law_scan_adds(sym, cond, n);
            let c = scan::scanned(sym, cond, n);
            lemma_scan_stmts(sym, then_b.stmts, then_b.stmts@.len(), c);
            match else_b {
                Some(b) => lemma_scan_stmts(
                    sym,
                    b.stmts,
                    b.stmts@.len(),
                    scan::scanned_stmts(sym, then_b.stmts, then_b.stmts@.len(), c),
                ),
                None => {},
            }
        },
        HStmt::While { cond, body } => {
            law_scan_adds(sym, cond, n);
            lemma_scan_stmts(sym, body.stmts, body.stmts@.len(), scan::scanned(sym, cond, n));
        },
        HStmt::Block(b) => lemma_scan_stmts(sym, b.stmts, b.stmts@.len(), n),
        HStmt::Unsafe(b) => lemma_scan_stmts(sym, b.stmts, b.stmts@.len(), n),
        HStmt::Break | HStmt::Continue => {},
        HStmt::ForC { init, cond, step, body } => {
            lemma_scan_stmt(sym, *init, n);
            let i = scan::scanned_stmt(sym, *init, n);
            law_scan_adds(sym, cond, i);
            let c = scan::scanned(sym, cond, i);
            lemma_scan_stmt(sym, *step, c);
            lemma_scan_stmts(sym, body.stmts, body.stmts@.len(), scan::scanned_stmt(sym, *step, c));
        },
        HStmt::ForEach { src, body, .. } => {
            law_scan_adds(sym, src, n);
            lemma_scan_stmts(sym, body.stmts, body.stmts@.len(), scan::scanned(sym, src, n));
        },
        HStmt::Propagate { value } => match value {
            Some(e) => law_scan_adds(sym, e, n),
            None => {},
        },
    }
}

proof fn lemma_scan_stmts(sym: SymTab, v: Vec<HStmt>, k: nat, n: Noted)
    ensures
        covers(scan::scanned_stmts(sym, v, k, n), n),
    decreases v, k,
{
    if 0 < k <= v@.len() {
        lemma_scan_stmts(sym, v, (k - 1) as nat, n);
        lemma_scan_stmt(sym, v@[k - 1], scan::scanned_stmts(sym, v, (k - 1) as nat, n));
    }
}

proof fn lemma_scan_locals(sym: SymTab, locals: Seq<LocalInfo>, k: nat, n: Noted)
    ensures
        covers(scan::scanned_locals(sym, locals, k, n), n),
    decreases k,
{
    if 0 < k <= locals.len() {
        lemma_scan_locals(sym, locals, (k - 1) as nat, n);
        law_note_adds(sym, locals[k - 1].ty, scan::scanned_locals(sym, locals, (k - 1) as nat, n));
    }
}

/// Scanning a function forgets nothing.
pub proof fn law_scan_func_adds(sym: SymTab, f: HFunc, n: Noted)
    ensures
        covers(scan::scanned_func(sym, f, n), n),
        covers(
            scan::scanned_func(sym, f, n),
            scan::note_c(sym, f.ret, scan::scanned_locals(sym, f.locals@, f.locals@.len(), n)),
        ),
{
    let l = scan::scanned_locals(sym, f.locals@, f.locals@.len(), n);
    lemma_scan_locals(sym, f.locals@, f.locals@.len(), n);
    law_note_adds(sym, f.ret, l);
    lemma_scan_stmts(sym, f.body.stmts, f.body.stmts@.len(), scan::note_c(sym, f.ret, l));
}

proof fn lemma_locals_find(
    sym: SymTab,
    locals: Seq<LocalInfo>,
    k: nat,
    n: Noted,
    i: int,
    part: HType,
)
    requires
        0 <= i < k <= locals.len(),
        holds_type(locals[i].ty, part),
    ensures
        wanted_typedef(sym, scan::scanned_locals(sym, locals, k, n), part),
    decreases k,
{
    let before = scan::scanned_locals(sym, locals, (k - 1) as nat, n);
    if i == k - 1 {
        law_note_finds_typedefs(sym, locals[i].ty, before, part);
    } else {
        lemma_locals_find(sym, locals, (k - 1) as nat, n, i, part);
        law_note_adds(sym, locals[k - 1].ty, before);
    }
}

/// Every typedef that the type of a local relies on is wanted.
pub proof fn law_scan_finds_local_types(sym: SymTab, f: HFunc, n: Noted, i: int, part: HType)
    requires
        0 <= i < f.locals@.len(),
        holds_type(f.locals@[i].ty, part),
    ensures
        wanted_typedef(sym, scan::scanned_func(sym, f, n), part),
{
    let l = scan::scanned_locals(sym, f.locals@, f.locals@.len(), n);
    lemma_locals_find(sym, f.locals@, f.locals@.len(), n, i, part);
    law_note_adds(sym, f.ret, l);
    law_scan_func_adds(sym, f, n);
}

/// Every typedef that a function's return type relies on is wanted.
pub proof fn law_scan_finds_return_type(sym: SymTab, f: HFunc, n: Noted, part: HType)
    requires
        holds_type(f.ret, part),
    ensures
        wanted_typedef(sym, scan::scanned_func(sym, f, n), part),
{
    let l = scan::scanned_locals(sym, f.locals@, f.locals@.len(), n);
    law_note_finds_typedefs(sym, f.ret, l, part);
    law_scan_func_adds(sym, f, n);
}

/// The expression `part` occurs in the expression `e`.
pub open spec fn occurs(e: HExpr, part: HExpr) -> bool
    decreases e, 1nat,
{
    e == part || occurs_inside(e, part)
}

/// The expression `part` occurs in a part of the expression `e`.
pub open spec fn occurs_inside(e: HExpr, part: HExpr) -> bool
    decreases e, 0nat,
{
    match e.kind {
        HExprKind::Bin { lhs, rhs, .. } => occurs(*lhs, part) || occurs(*rhs, part),
        HExprKind::Un { expr, .. } => occurs(*expr, part),
        HExprKind::Unwrap { expr, .. } => occurs(*expr, part),
        HExprKind::AddrOfRef { place, .. } => occurs(*place, part),
        HExprKind::Field { base, .. } => occurs(*base, part),
        HExprKind::Index { base, idx } => occurs(*base, part) || occurs(*idx, part),
        HExprKind::Call { args, .. } => any_occurs(args, args@.len(), part),
        HExprKind::Cast { expr, .. } => occurs(*expr, part),
        HExprKind::CheckedCast { expr, .. } => occurs(*expr, part),
        HExprKind::DropWrite(x) => occurs(*x, part),
        HExprKind::ArrayToSlice { base, .. } => occurs(*base, part),
        HExprKind::DerefRef(x) => occurs(*x, part),
        HExprKind::HeapAlloc(x) => occurs(*x, part),
        HExprKind::Free(x) => occurs(*x, part),
        HExprKind::CallIndirect { callee, args } => occurs(*callee, part) || any_occurs(
            args,
            args@.len(),
            part,
        ),
        HExprKind::InlineCall { args, .. } => any_occurs(args, args@.len(), part),
        HExprKind::Closure { env_values, .. } => any_occurs(env_values, env_values@.len(), part),
        HExprKind::Transfer(x) => occurs(*x, part),
        HExprKind::SliceLen(x) => occurs(*x, part),
        HExprKind::EnumTag(x) => occurs(*x, part),
        HExprKind::VariantCtor { fields, .. } => field_occurs(fields, fields@.len(), part),
        HExprKind::Match { scrutinee, arms, .. } => occurs(*scrutinee, part) || arm_occurs(
            arms,
            arms@.len(),
            part,
        ),
        HExprKind::Struct { fields, .. } => field_occurs(fields, fields@.len(), part),
        HExprKind::ArrayLit(es) => any_occurs(es, es@.len(), part),
        _ => false,
    }
}

/// The expression occurs in one of the first `k` expressions.
pub open spec fn any_occurs(v: Vec<HExpr>, k: nat, part: HExpr) -> bool
    decreases v, k,
{
    0 < k <= v@.len() && (any_occurs(v, (k - 1) as nat, part) || occurs(v@[k - 1], part))
}

/// The expression occurs in one of the first `k` field values.
pub open spec fn field_occurs(v: Vec<(usize, HExpr)>, k: nat, part: HExpr) -> bool
    decreases v, k,
{
    0 < k <= v@.len() && (field_occurs(v, (k - 1) as nat, part) || occurs(v@[k - 1].1, part))
}

/// The expression occurs in a guard, the statements or the value of one of the first `k`
/// arms.
pub open spec fn arm_occurs(v: Vec<HMatchArm>, k: nat, part: HExpr) -> bool
    decreases v, k,
{
    0 < k <= v@.len() && {
        let a = v@[k - 1];
        ||| arm_occurs(v, (k - 1) as nat, part)
        ||| (match a.guard {
            Some(g) => occurs(g, part),
            None => false,
        })
        ||| stmts_occur(a.body.stmts, a.body.stmts@.len(), part)
        ||| (match a.value {
            Some(x) => occurs(x, part),
            None => false,
        })
    }
}

/// The expression occurs in the statement.
pub open spec fn stmt_occurs(s: HStmt, part: HExpr) -> bool
    decreases s, 0nat,
{
    match s {
        HStmt::Let { init, .. } => occurs(init, part),
        HStmt::Assign { place, value, .. } => occurs(place, part) || occurs(value, part),
        HStmt::ExprStmt(e) => occurs(e, part),
        HStmt::Return { value, .. } => match value {
            Some(e) => occurs(e, part),
            None => false,
        },
        HStmt::If { cond, then_b, else_b } => {
            ||| occurs(cond, part)
            ||| stmts_occur(then_b.stmts, then_b.stmts@.len(), part)
            ||| (match else_b {
                Some(b) => stmts_occur(b.stmts, b.stmts@.len(), part),
                None => false,
            })
        },
        HStmt::While { cond, body } => occurs(cond, part) || stmts_occur(
            body.stmts,
            body.stmts@.len(),
            part,
        ),
        HStmt::Block(b) => stmts_occur(b.stmts, b.stmts@.len(), part),
        HStmt::Unsafe(b) => stmts_occur(b.stmts, b.stmts@.len(), part),
        HStmt::Break | HStmt::Continue => false,
        HStmt::ForC { init, cond, step, body } => {
            ||| stmt_occurs(*init, part)
            ||| occurs(cond, part)
            ||| stmt_occurs(*step, part)
            ||| stmts_occur(body.stmts, body.stmts@.len(), part)
        },
        HStmt::ForEach { src, body, .. } => occurs(src, part) || stmts_occur(
            body.stmts,
            body.stmts@.len(),
            part,
        ),
        HStmt::Propagate { value } => match value {
            Some(e) => occurs(e, part),
            None => false,
        },
    }
}

/// The expression occurs in one of the first `k` statements.
pub open spec fn stmts_occur(v: Vec<HStmt>, k: nat, part: HExpr) -> bool
    decreases v, k,
{
    0 < k <= v@.len() && (stmts_occur(v, (k - 1) as nat, part) || stmt_occurs(v@[k - 1], part))
}

/// All that the text of the expression relies on is noted: the trampoline of a function
/// value or closure, the method table of a trait object, the typedefs of its type.
pub open spec fn use_noted(sym: SymTab, n: Noted, part: HExpr) -> bool {
    &&& (match part.kind {
        HExprKind::FnRef(id) => n.refs.contains(id.0),
        HExprKind::Closure { lifted, .. } => n.closures.contains(lifted.0),
        HExprKind::Cast { kind, .. } => match kind {
            CastKind::ToDyn { trait_name, struct_id } => n.traits.contains(trait_name@)
                && n.insts.contains((trait_name@, struct_id.0)),
            _ => true,
        },
        _ => true,
    })
    &&& forall|t: HType| #[trigger] holds_type(part.ty, t) ==> wanted_typedef(sym, n, t)
}

/// A use that was noted stays noted.
pub proof fn lemma_use_kept(sym: SymTab, a: Noted, b: Noted, part: HExpr)
    requires
        use_noted(sym, a, part),
        covers(b, a),
    ensures
        use_noted(sym, b, part),
{
    assert forall|t: HType| #[trigger] holds_type(part.ty, t) implies wanted_typedef(sym, b, t) by {
        assert(wanted_typedef(sym, a, t));
    }
}

proof fn lemma_own_use(sym: SymTab, e: HExpr, n: Noted)
    ensures
        use_noted(sym, scan::scanned(sym, e, n), e),
{
    let n2 = scan::note_c(sym, e.ty, n);
    assert forall|t: HType| #[trigger] holds_type(e.ty, t) implies wanted_typedef(
        sym,
        scan::scanned(sym, e, n),
        t,
    ) by {
        law_note_finds_typedefs(sym, e.ty, n, t);
        law_scan_adds(sym, e, n);
    }
    assert(scan::scanned(sym, e, n) == scan::scanned_parts(sym, e, n2));
    match e.kind {
        HExprKind::Closure { lifted, env_values, .. } => lemma_scan_all(
            sym,
            env_values,
            env_values@.len(),
            Noted { closures: n2.closures.insert(lifted.0), ..n2 },
        ),
        HExprKind::Cast { expr, kind, .. } => match kind {
            CastKind::ToDyn { trait_name, struct_id } => law_scan_adds(
                sym,
                *expr,
                Noted {
                    traits: n2.traits.insert(trait_name@),
                    insts: n2.insts.insert((trait_name@, struct_id.0)),
                    ..n2
                },
            ),
            _ => {},
        },
        _ => {},
    }
}

/// Whatever occurs in an expression that was scanned has its uses noted.
#[verifier::spinoff_prover]
pub proof fn law_scan_notes_uses(sym: SymTab, e: HExpr, n: Noted, part: HExpr)
    requires
        occurs(e, part),
    ensures
        use_noted(sym, scan::scanned(sym, e, n), part),
    decreases e, 1nat,
{
    lemma_own_use(sym, e, n);
    let n2 = scan::note_c(sym, e.ty, n);
    assert(scan::scanned(sym, e, n) == scan::scanned_parts(sym, e, n2));
    if e != part {
        assert(occurs_inside(e, part));
        match e.kind {
            HExprKind::Bin { lhs, rhs, .. } => {
                let m = scan::scanned(sym, *lhs, n2);
                if occurs(*lhs, part) {
                    law_scan_notes_uses(sym, *lhs, n2, part);
                    law_scan_adds(sym, *rhs, m);
                    lemma_use_kept(sym, m, scan::scanned(sym, *rhs, m), part);
                } else {
                    law_scan_notes_uses(sym, *rhs, m, part);
                }
            },
            HExprKind::Un { expr, .. } => law_scan_notes_uses(sym, *expr, n2, part),
            HExprKind::Unwrap { expr, .. } => law_scan_notes_uses(sym, *expr, n2, part),
            HExprKind::AddrOfRef { place, .. } => law_scan_notes_uses(sym, *place, n2, part),
            HExprKind::Field { base, .. } => law_scan_notes_uses(sym, *base, n2, part),
            HExprKind::Index { base, idx } => {
                let m = scan::scanned(sym, *base, n2);
                if occurs(*base, part) {
                    law_scan_notes_uses(sym, *base, n2, part);
                    law_scan_adds(sym, *idx, m);
                    lemma_use_kept(sym, m, scan::scanned(sym, *idx, m), part);
                } else {
                    law_scan_notes_uses(sym, *idx, m, part);
                }
            },
            HExprKind::Call { args, .. } => lemma_all_uses(sym, args, args@.len(), n2, part),
            HExprKind::Cast { expr, kind, .. } => {
                let n3 = match kind {
                    CastKind::ToDyn { trait_name, struct_id } => Noted {
                        traits: n2.traits.insert(trait_name@),
                        insts: n2.insts.insert((trait_name@, struct_id.0)),
                        ..n2
                    },
                    _ => n2,
                };
                law_scan_notes_uses(sym, *expr, n3, part);
            },
            HExprKind::CheckedCast { expr, .. } => law_scan_notes_uses(sym, *expr, n2, part),
            HExprKind::DropWrite(x) => law_scan_notes_uses(sym, *x, n2, part),
            HExprKind::ArrayToSlice { base, .. } => law_scan_notes_uses(sym, *base, n2, part),
            HExprKind::DerefRef(x) => law_scan_notes_uses(sym, *x, n2, part),
            HExprKind::HeapAlloc(x) => law_scan_notes_uses(sym, *x, n2, part),
            HExprKind::Free(x) => law_scan_notes_uses(sym, *x, n2, part),
            HExprKind::CallIndirect { callee, args } => {
                let c = scan::scanned(sym, *callee, n2);
                if occurs(*callee, part) {
                    law_scan_notes_uses(sym, *callee, n2, part);
                    lemma_scan_all(sym, args, args@.len(), c);
                    lemma_use_kept(sym, c, scan::scanned_all(sym, args, args@.len(), c), part);
                } else {
                    lemma_all_uses(sym, args, args@.len(), c, part);
                }
            },
            HExprKind::InlineCall { args, .. } => lemma_all_uses(sym, args, args@.len(), n2, part),
            HExprKind::Closure { lifted, env_values, .. } => lemma_all_uses(
                sym,
                env_values,
                env_values@.len(),
                Noted { closures: n2.closures.insert(lifted.0), ..n2 },
                part,
            ),
            HExprKind::Transfer(x) => law_scan_notes_uses(sym, *x, n2, part),
            HExprKind::SliceLen(x) => law_scan_notes_uses(sym, *x, n2, part),
            HExprKind::EnumTag(x) => law_scan_notes_uses(sym, *x, n2, part),
            HExprKind::VariantCtor { fields, .. } => {
                lemma_field_uses(sym, fields, fields@.len(), n2, part);
            },
            HExprKind::Match { scrutinee, arms, .. } => {
                let s = scan::scanned(sym, *scrutinee, n2);
                if occurs(*scrutinee, part) {
                    law_scan_notes_uses(sym, *scrutinee, n2, part);
                    lemma_scan_arms(sym, arms, arms@.len(), s);
                    lemma_use_kept(sym, s, scan::scanned_arms(sym, arms, arms@.len(), s), part);
                } else {
                    lemma_arm_uses(sym, arms, arms@.len(), s, part);
                }
            },
            HExprKind::Struct { fields, .. } => {
                lemma_field_uses(sym, fields, fields@.len(), n2, part);
            },
            HExprKind::ArrayLit(es) => lemma_all_uses(sym, es, es@.len(), n2, part),
            _ => {},
        }
    }
}

proof fn lemma_all_uses(sym: SymTab, v: Vec<HExpr>, k: nat, n: Noted, part: HExpr)
    requires
        any_occurs(v, k, part),
    ensures
        use_noted(sym, scan::scanned_all(sym, v, k, n), part),
    decreases v, k,
{
    let before = scan::scanned_all(sym, v, (k - 1) as nat, n);
    if occurs(v@[k - 1], part) {
        law_scan_notes_uses(sym, v@[k - 1], before, part);
    } else {
        lemma_all_uses(sym, v, (k - 1) as nat, n, part);
        law_scan_adds(sym, v@[k - 1], before);
        lemma_use_kept(sym, before, scan::scanned(sym, v@[k - 1], before), part);
    }
}

proof fn lemma_field_uses(sym: SymTab, v: Vec<(usize, HExpr)>, k: nat, n: Noted, part: HExpr)
    requires
        field_occurs(v, k, part),
    ensures
        use_noted(sym, scan::scanned_fields(sym, v, k, n), part),
    decreases v, k,
{
    let before = scan::scanned_fields(sym, v, (k - 1) as nat, n);
    if occurs(v@[k - 1].1, part) {
        law_scan_notes_uses(sym, v@[k - 1].1, before, part);
    } else {
        lemma_field_uses(sym, v, (k - 1) as nat, n, part);
        law_scan_adds(sym, v@[k - 1].1, before);
        lemma_use_kept(sym, before, scan::scanned(sym, v@[k - 1].1, before), part);
    }
}

proof fn lemma_arm_uses(sym: SymTab, v: Vec<HMatchArm>, k: nat, n: Noted, part: HExpr)
    requires
        arm_occurs(v, k, part),
    ensures
        use_noted(sym, scan::scanned_arms(sym, v, k, n), part),
    decreases v, k,
{
    let a = v@[k - 1];
    let before = scan::scanned_arms(sym, v, (k - 1) as nat, n);
    let guarded = match a.guard {
        Some(g) => {
            law_scan_adds(sym, g, before);
            scan::scanned(sym, g, before)
        },
        None => before,
    };
    let body = scan::scanned_stmts(sym, a.body.stmts, a.body.stmts@.len(), guarded);
    lemma_scan_stmts(sym, a.body.stmts, a.body.stmts@.len(), guarded);
    let after = match a.value {
        Some(x) => {
            law_scan_adds(sym, x, body);
            scan::scanned(sym, x, body)
        },
        None => body,
    };
    if a.value is Some && occurs(a.value->0, part) {
        law_scan_notes_uses(sym, a.value->0, body, part);
    } else if stmts_occur(a.body.stmts, a.body.stmts@.len(), part) {
        lemma_stmts_uses(sym, a.body.stmts, a.body.stmts@.len(), guarded, part);
        lemma_use_kept(sym, body, after, part);
    } else if a.guard is Some && occurs(a.guard->0, part) {
        law_scan_notes_uses(sym, a.guard->0, before, part);
        lemma_use_kept(sym, guarded, after, part);
    } else {
        lemma_arm_uses(sym, v, (k - 1) as nat, n, part);
        lemma_use_kept(sym, before, after, part);
    }
}

#[verifier::spinoff_prover]
proof fn lemma_stmt_uses(sym: SymTab, s: HStmt, n: Noted, part: HExpr)
    requires
        stmt_occurs(s, part),
    ensures
        use_noted(sym, scan::scanned_stmt(sym, s, n), part),
    decreases s, 0nat,
{
    match s {
        HStmt::Let { init, .. } => law_scan_notes_uses(sym, init, scan::note_c(sym, init.ty, n), part),
        HStmt::Assign { place, value, .. } => {
            let m = scan::scanned(sym, place, n);
            if occurs(place, part) {
                law_scan_notes_uses(sym, place, n, part);
                law_scan_adds(sym, value, m);
                lemma_use_kept(sym, m, scan::scanned(sym, value, m), part);
            } else {
                law_scan_notes_uses(sym, value, m, part);
            }
        },
        HStmt::ExprStmt(e) => law_scan_notes_uses(sym, e, n, part),
        HStmt::Return { value, .. } => match value {
            Some(e) => law_scan_notes_uses(sym, e, n, part),
            None => {},
        },
        HStmt::If { cond, then_b, else_b } => {
            let c = scan::scanned(sym, cond, n);
            let t = scan::scanned_stmts(sym, then_b.stmts, then_b.stmts@.len(), c);
            lemma_scan_stmts(sym, then_b.stmts, then_b.stmts@.len(), c);
            if occurs(cond, part) {
                law_scan_notes_uses(sym, cond, n, part);
                lemma_use_kept(sym, c, t, part);
            } else if stmts_occur(then_b.stmts, then_b.stmts@.len(), part) {
                lemma_stmts_uses(sym, then_b.stmts, then_b.stmts@.len(), c, part);
            }
            match else_b {
                Some(b) => {
                    lemma_scan_stmts(sym, b.stmts, b.stmts@.len(), t);
                    if stmts_occur(b.stmts, b.stmts@.len(), part) {
                        lemma_stmts_uses(sym, b.stmts, b.stmts@.len(), t, part);
                    } else {
                        lemma_use_kept(
                            sym,
                            t,
                            scan::scanned_stmts(sym, b.stmts, b.stmts@.len(), t),
                            part,
                        );
                    }
                },
                None => {},
            }
        },
        HStmt::While { cond, body } => {
            let c = scan::scanned(sym, cond, n);
            if occurs(cond, part) {
                law_scan_notes_uses(sym, cond, n, part);
                lemma_scan_stmts(sym, body.stmts, body.stmts@.len(), c);
                lemma_use_kept(sym, c, scan::scanned_stmts(sym, body.stmts, body.stmts@.len(), c), part);
            } else {
                lemma_stmts_uses(sym, body.stmts, body.stmts@.len(), c, part);
            }
        },
        HStmt::Block(b) => lemma_stmts_uses(sym, b.stmts, b.stmts@.len(), n, part),
        HStmt::Unsafe(b) => lemma_stmts_uses(sym, b.stmts, b.stmts@.len(), n, part),
        HStmt::Break | HStmt::Continue => {},
        HStmt::ForC { init, cond, step, body } => {
            let i = scan::scanned_stmt(sym, *init, n);
            let c = scan::scanned(sym, cond, i);
            let p = scan::scanned_stmt(sym, *step, c);
            let after = scan::scanned_stmts(sym, body.stmts, body.stmts@.len(), p);
            law_scan_adds(sym, cond, i);
            lemma_scan_stmt(sym, *step, c);
            lemma_scan_stmts(sym, body.stmts, body.stmts@.len(), p);
            if stmts_occur(body.stmts, body.stmts@.len(), part) {
                lemma_stmts_uses(sym, body.stmts, body.stmts@.len(), p, part);
            } else if stmt_occurs(*step, part) {
                lemma_stmt_uses(sym, *step, c, part);
                lemma_use_kept(sym, p, after, part);
            } else if occurs(cond, part) {
                law_scan_notes_uses(sym, cond, i, part);
                lemma_use_kept(sym, c, after, part);
            } else {
                lemma_stmt_uses(sym, *init, n, part);
                lemma_use_kept(sym, i, after, part);
            }
        },
        HStmt::ForEach { src, body, .. } => {
            let c = scan::scanned(sym, src, n);
            if occurs(src, part) {
                law_scan_notes_uses(sym, src, n, part);
                lemma_scan_stmts(sym, body.stmts, body.stmts@.len(), c);
                lemma_use_kept(sym, c, scan::scanned_stmts(sym, body.stmts, body.stmts@.len(), c), part);
            } else {
                lemma_stmts_uses(sym, body.stmts, body.stmts@.len(), c, part);
            }
        },
        HStmt::Propagate { value } => match value {
            Some(e) => law_scan_notes_uses(sym, e, n, part),
            None => {},
        },
    }
}

proof fn lemma_stmts_uses(sym: SymTab, v: Vec<HStmt>, k: nat, n: Noted, part: HExpr)
    requires
        stmts_occur(v, k, part),
    ensures
        use_noted(sym, scan::scanned_stmts(sym, v, k, n), part),
    decreases v, k,
{
    let before = scan::scanned_stmts(sym, v, (k - 1) as nat, n);
    if stmt_occurs(v@[k - 1], part) {
        lemma_stmt_uses(sym, v@[k - 1], before, part);
    } else {
        lemma_stmts_uses(sym, v, (k - 1) as nat, n, part);
        lemma_scan_stmt(sym, v@[k - 1], before);
        lemma_use_kept(sym, before, scan::scanned_stmt(sym, v@[k - 1], before), part);
    }
}

/// Whatever occurs in the body of a function that was scanned has its uses noted.
pub proof fn law_scan_func_notes_uses(sym: SymTab, f: HFunc, n: Noted, part: HExpr)
    requires
        stmts_occur(f.body.stmts, f.body.stmts@.len(), part),
    ensures
        use_noted(sym, scan::scanned_func(sym, f, n), part),
{
    let l = scan::scanned_locals(sym, f.locals@, f.locals@.len(), n);
    lemma_stmts_uses(sym, f.body.stmts, f.body.stmts@.len(), scan::note_c(sym, f.ret, l), part);
}

} // verus!
