//! When a body can be lowered: every id it uses is in range where it is used.
//!
//! `d` bounds how deep inline calls may nest; `spliced` says whether the piece is read
//! as part of an inline expansion.
use vstd::prelude::*;

use crate::analysis;
use crate::builtins;
use crate::ctypes;
use crate::drops;
use crate::frames;
use crate::hir::{
    CastKind, FuncId, HAssignOp, HBlock, HExpr, HExprKind, HFunc, HMatchArm, HStmt, HType,
    LocalId, StructInfo, SymTab,
};
use crate::patterns;
use crate::places;
use crate::values;

verus! {

/// The expression can be lowered.
#[verifier::opaque]
pub open spec fn expr_ok(d: nat, sym: SymTab, f: HFunc, spliced: bool, e: HExpr) -> bool
    decreases d, e, 0nat,
{
    match e.kind {
        HExprKind::LitInt(_) | HExprKind::LitFloat(_) | HExprKind::LitBool(_)
        | HExprKind::LitChar(_) | HExprKind::LitStr(_) | HExprKind::LitNull
        | HExprKind::LitUnit => true,
        HExprKind::Local(id) => spliced || id.0 < f.locals@.len(),
        HExprKind::GlobalRef(id) => sym.has_global(id),
        HExprKind::CallIndirect { callee, args } => expr_ok(
            d,
            sym,
            f,
            spliced,
            *callee,
        ) && exprs_ok(
            d,
            sym,
            f,
            spliced,
            args,
            0,
            args@.len(),
        ),
        HExprKind::InlineCall { callee, args } => match sym.func_from(callee, 0) {
            Some(i) => exprs_ok(d, sym, f, spliced, args, 0, args@.len()) && d > 0 && expansion_ok(
                (d - 1) as nat,
                sym,
                sym.funcs@[i],
                e.ty,
            ),
            None => true,
        },
        HExprKind::Transfer(x) => expr_ok(d, sym, f, spliced, *x),
        HExprKind::EnumTag(x) => expr_ok(d, sym, f, spliced, *x) && values::enum_ty_ok(sym, x.ty),
        HExprKind::SliceLen(x) => expr_ok(d, sym, f, spliced, *x),
        HExprKind::Closure { lifted, env_struct, env_values } => {
            &&& sym.has_sig(lifted)
            &&& sym.has_struct(env_struct)
            &&& exprs_ok(
                d,
                sym,
                f,
                spliced,
                env_values,
                0,
                captured(sym.the_struct(env_struct), env_values@.len()),
            )
        },
        HExprKind::FnRef(id) => sym.has_sig(id),
        HExprKind::EnumVariant(id, v) => sym.has_variant(id, v),
        HExprKind::Bin { op, lhs, rhs } => {
            &&& expr_ok(d, sym, f, spliced, *lhs)
            &&& expr_ok(d, sym, f, spliced, *rhs)
            &&& values::bin_ok(sym, op, lhs.ty, rhs.ty)
        },
        HExprKind::Un { expr, .. } => expr_ok(d, sym, f, spliced, *expr),
        HExprKind::Unwrap { expr, .. } => expr_ok(d, sym, f, spliced, *expr),
        HExprKind::AddrOfRef { place, .. } => expr_ok(d, sym, f, spliced, *place),
        HExprKind::Field { base, field } => expr_ok(d, sym, f, spliced, *base) && places::has_field(
            sym,
            base.ty,
            field,
        ),
        HExprKind::Index { base, idx } => expr_ok(d, sym, f, spliced, *base) && expr_ok(
            d,
            sym,
            f,
            spliced,
            *idx,
        ),
        HExprKind::Call { callee, args } => call_ok(d, sym, f, spliced, callee, args),
        HExprKind::Cast { expr, kind, to } => match kind {
            CastKind::ToDyn { struct_id, .. } => sym.has_struct(struct_id) && expr_ok(
                d,
                sym,
                f,
                spliced,
                *expr,
            ),
            _ => expr_ok(d, sym, f, spliced, *expr) && ctypes::ty_ok(sym, to),
        },
        HExprKind::CheckedCast { expr, to, .. } => expr_ok(d, sym, f, spliced, *expr) && ctypes::ty_ok(
            sym,
            to,
        ),
        HExprKind::Struct { id, fields } => sym.has_struct(id) && values_ok(
            d,
            sym,
            f,
            spliced,
            fields,
            sym.the_struct(id).fields@.len(),
        ),
        HExprKind::ArrayLit(es) => exprs_ok(d, sym, f, spliced, es, 0, es@.len()) && values::array_lit_ok(
            sym,
            e.ty,
            es@.len(),
        ),
        HExprKind::DropWrite(x) => expr_ok(d, sym, f, spliced, *x),
        HExprKind::DerefRef(x) => expr_ok(d, sym, f, spliced, *x),
        HExprKind::HeapAlloc(x) => match x.ty {
            HType::Array { elem, .. } => ctypes::ty_ok(sym, *elem) && (match x.kind {
                HExprKind::ArrayLit(es) => exprs_ok(d, sym, f, spliced, es, 0, es@.len()),
                _ => expr_ok(d, sym, f, spliced, *x),
            }),
            _ => ctypes::ty_ok(sym, x.ty) && expr_ok(d, sym, f, spliced, *x),
        },
        HExprKind::Free(x) => expr_ok(d, sym, f, spliced, *x),
        HExprKind::Match { scrutinee, arms, result_ty } => {
            &&& expr_ok(d, sym, f, spliced, *scrutinee)
            &&& ctypes::ty_ok(sym, scrutinee.ty)
            &&& ctypes::ty_ok(sym, result_ty)
            &&& arms_ok(d, sym, f, spliced, arms, arms@.len())
        },
        HExprKind::VariantCtor { enum_id, variant, fields } => sym.has_variant(enum_id, variant)
            && values_ok(
            d,
            sym,
            f,
            spliced,
            fields,
            sym.the_variant(enum_id, variant).fields@.len(),
        ),
        HExprKind::ArrayToSlice { base, .. } => expr_ok(d, sym, f, spliced, *base) && values::slice_view_ok(
            sym,
            e.ty,
        ),
    }
}

/// How many values of a closure go into its environment.
pub open spec fn captured(env: StructInfo, values: nat) -> nat {
    if values < env.fields@.len() { values } else { env.fields@.len() }
}

/// The expressions from position `from` up to `n` can be lowered.
pub open spec fn exprs_ok(
    d: nat,
    sym: SymTab,
    f: HFunc,
    spliced: bool,
    v: Vec<HExpr>,
    from: nat,
    n: nat,
) -> bool
    decreases d, v, n,
{
    if n <= from || n > v@.len() {
        true
    } else {
        exprs_ok(d, sym, f, spliced, v, from, (n - 1) as nat) && expr_ok(
            d,
            sym,
            f,
            spliced,
            v@[n - 1],
        )
    }
}

/// The values that a literal gives for the first `n` fields can be lowered.
pub open spec fn values_ok(
    d: nat,
    sym: SymTab,
    f: HFunc,
    spliced: bool,
    fields: Vec<(usize, HExpr)>,
    n: nat,
) -> bool
    decreases d, fields, n,
{
    if n == 0 {
        true
    } else {
        proof {
            frames::lemma_value_in_range(fields@, n - 1, 0);
        }
        values_ok(d, sym, f, spliced, fields, (n - 1) as nat) && (match frames::value_from(
            fields@,
            n - 1,
            0,
        ) {
            Some(p) => expr_ok(d, sym, f, spliced, fields@[p].1),
            None => true,
        })
    }
}

/// The receiver of a call goes through a method table.
pub open spec fn dispatched(args: Seq<HExpr>) -> bool {
    args.len() > 0 && args[0].ty.is_dyn_value()
}

/// The call can be lowered.
pub open spec fn call_ok(
    d: nat,
    sym: SymTab,
    f: HFunc,
    spliced: bool,
    callee: FuncId,
    args: Vec<HExpr>,
) -> bool
    decreases d, args, args@.len() + 1,
{
    match builtins::builtin_of(callee) {
        Some(b) => builtins::builtin_ok(sym, b, args@) && exprs_ok(
            d,
            sym,
            f,
            spliced,
            args,
            0,
            builtins::evaluated(b, args@.len()),
        ),
        None => sym.has_sig(callee) && (if dispatched(args@) {
            (match args@[0].kind {
                HExprKind::AddrOfRef { place, .. } => expr_ok(d, sym, f, spliced, *place),
                _ => expr_ok(d, sym, f, spliced, args@[0]),
            }) && exprs_ok(d, sym, f, spliced, args, 1, args@.len())
        } else {
            exprs_ok(d, sym, f, spliced, args, 0, args@.len())
        }),
    }
}

/// The first `n` arms can be lowered.
pub open spec fn arms_ok(
    d: nat,
    sym: SymTab,
    f: HFunc,
    spliced: bool,
    arms: Vec<HMatchArm>,
    n: nat,
) -> bool
    decreases d, arms, n,
{
    if n == 0 || n > arms@.len() {
        true
    } else {
        arms_ok(d, sym, f, spliced, arms, (n - 1) as nat) && arm_ok(
            d,
            sym,
            f,
            spliced,
            arms@[n - 1],
        )
    }
}

/// The arm can be lowered.
pub open spec fn arm_ok(d: nat, sym: SymTab, f: HFunc, spliced: bool, a: HMatchArm) -> bool
    decreases d, a, 0nat,
{
    &&& patterns::test_ok(sym, a.kind)
    &&& patterns::binds_ok(sym, f, a.kind)
    &&& patterns::scrutinee_ok(sym, f, a.scrut_binding)
    &&& (match a.guard {
        Some(g) => expr_ok(d, sym, f, spliced, g),
        None => true,
    })
    &&& stmts_ok(d, sym, f, spliced, a.body.stmts, a.body.stmts@.len())
    &&& frames::locals_ok(f, a.body.ptr_nulls@)
    &&& frames::releases_ok(sym, f, a.body.heap_to_free@)
    &&& (match a.value {
        Some(v) => expr_ok(d, sym, f, spliced, v),
        None => true,
    })
}

/// The first `n` statements can be lowered.
pub open spec fn stmts_ok(
    d: nat,
    sym: SymTab,
    f: HFunc,
    spliced: bool,
    v: Vec<HStmt>,
    n: nat,
) -> bool
    decreases d, v, n,
{
    if n == 0 || n > v@.len() {
        true
    } else {
        stmts_ok(d, sym, f, spliced, v, (n - 1) as nat) && (if spliced {
            inline_stmt_ok(d, sym, f, v@[n - 1])
        } else {
            stmt_ok(d, sym, f, v@[n - 1])
        })
    }
}

/// The block can be lowered.
pub open spec fn block_ok(d: nat, sym: SymTab, f: HFunc, b: HBlock) -> bool
    decreases d, b, 0nat,
{
    &&& stmts_ok(d, sym, f, false, b.stmts, b.stmts@.len())
    &&& frames::locals_ok(f, b.ptr_nulls@)
    &&& frames::releases_ok(sym, f, b.heap_to_free@)
}

/// How many owning pointers lead from a value of the type to what they own in the end.
pub open spec fn owner_depth(t: HType) -> nat
    decreases t,
{
    match t {
        HType::Heap { inner } | HType::OwnPtr { inner, .. } => 1 + owner_depth(*inner),
        _ => 0,
    }
}

/// The value is itself the owning pointer that a slot of this type holds, and not what the
/// slot owns.
pub open spec fn hands_over(slot: HType, value: HExpr) -> bool {
    ||| value.kind is HeapAlloc
    ||| value.kind is Call && value.ty is Heap
    ||| (value.ty is Heap || value.ty is OwnPtr) && owner_depth(value.ty) >= owner_depth(slot)
}

/// The local that an owning local takes over.
pub open spec fn moved_local(f: HFunc, init: HExpr) -> Option<LocalId> {
    match init.kind {
        HExprKind::Local(src) => if f.locals@[src.0 as int].ty is Heap { Some(src) } else { None },
        _ => None,
    }
}

/// The initial value becomes what the owning local holds.
pub open spec fn takes_over(f: HFunc, slot: HType, value: HExpr) -> bool {
    moved_local(f, value) is Some || hands_over(slot, value)
}

/// The assignment is written through a pointer that the place holds. A vector that an owning
/// local holds is no pointer.
pub open spec fn through_pointer(f: HFunc, place: HExpr) -> bool {
    match place.kind {
        HExprKind::Local(id) => match f.locals@[id.0 as int].ty {
            HType::Heap { inner } => !(*inner is Vec),
            HType::Ref { mutable, .. } => mutable,
            _ => false,
        },
        HExprKind::Unwrap { .. } => true,
        _ => false,
    }
}

/// A move out of an owned field or element clears it.
pub open spec fn clears_source(src: HExpr) -> bool {
    &&& src.ty is OwnPtr || src.ty is Heap
    &&& src.kind is Field || src.kind is Index
    &&& analysis::owned_place(src)
}

/// Where a move clears a vector, its type can be spelled.
pub open spec fn clear_ok(sym: SymTab, src: HExpr) -> bool {
    match src.ty {
        HType::Heap { inner } => clears_source(src) && *inner is Vec ==> ctypes::ty_ok(sym, *inner),
        _ => true,
    }
}

/// The assignment overwrites a place whose old value nothing on the right reads.
pub open spec fn overwrites(op: HAssignOp, place: HExpr, value: HExpr) -> bool {
    op is Assign && (match analysis::root_of(place) {
        Some(root) => !analysis::reads_local(value, root),
        None => false,
    })
}

/// The statement can be lowered.
#[verifier::opaque]
pub open spec fn stmt_ok(d: nat, sym: SymTab, f: HFunc, s: HStmt) -> bool
    decreases d, s, 0nat,
{
    match s {
        HStmt::Let { local, init } => patterns::typed_local_ok(sym, f, local) && clear_ok(sym, init)
            && expr_ok(d, sym, f, false, init),
        HStmt::Assign { op, place, value } => {
            &&& expr_ok(d, sym, f, false, place)
            &&& expr_ok(d, sym, f, false, value)
            &&& clear_ok(sym, value)
            &&& !through_pointer(f, place) && op is Assign ==> drops::embed_ok(sym, place.ty) && (
            overwrites(op, place, value) ==> drops::drop_ok(sym, place.ty))
        },
        HStmt::ExprStmt(e) => expr_ok(d, sym, f, false, e),
        HStmt::Return { value, heap_drops } => {
            &&& frames::releases_ok(sym, f, heap_drops@)
            &&& (match value {
                Some(e) => expr_ok(
                    d,
                    sym,
                    f,
                    false,
                    e,
                ) && clear_ok(sym, e) && (e.ty is Unit || ctypes::ty_ok(
                    sym,
                    e.ty,
                )),
                None => true,
            })
        },
        HStmt::If { cond, then_b, else_b } => {
            &&& expr_ok(d, sym, f, false, cond)
            &&& block_ok(d, sym, f, then_b)
            &&& (match else_b {
                Some(b) => block_ok(d, sym, f, b),
                None => true,
            })
        },
        HStmt::While { cond, body } => expr_ok(d, sym, f, false, cond) && block_ok(d, sym, f, body),
        HStmt::Block(b) => block_ok(d, sym, f, b),
        HStmt::Unsafe(b) => block_ok(d, sym, f, b),
        HStmt::Break | HStmt::Continue => true,
        HStmt::Propagate { value } => match value {
            Some(e) => expr_ok(d, sym, f, false, e),
            None => true,
        },
        HStmt::ForC { init, cond, step, body } => {
            &&& stmt_ok(d, sym, f, *init)
            &&& expr_ok(d, sym, f, false, cond)
            &&& step_ok(d, sym, f, false, *step)
            &&& block_ok(d, sym, f, body)
        },
        HStmt::ForEach { var, src, body } => {
            &&& patterns::typed_local_ok(sym, f, var)
            &&& expr_ok(d, sym, f, false, src)
            &&& frames::staged_source(src.ty) ==> ctypes::ty_ok(sym, src.ty)
            &&& block_ok(d, sym, f, body)
        },
    }
}

/// The step of a loop can be lowered; only assignments are.
pub open spec fn step_ok(d: nat, sym: SymTab, f: HFunc, spliced: bool, step: HStmt) -> bool
    decreases d, step, 0nat,
{
    match step {
        HStmt::Assign { place, value, .. } => expr_ok(d, sym, f, spliced, place) && expr_ok(
            d,
            sym,
            f,
            spliced,
            value,
        ),
        _ => true,
    }
}

/// Where the expression is a local, it is one of the function's.
pub open spec fn local_known(f: HFunc, e: HExpr) -> bool {
    e.kind matches HExprKind::Local(id) ==> id.0 < f.locals@.len()
}

/// The statement of an inline function can be lowered.
#[verifier::opaque]
pub open spec fn inline_stmt_ok(d: nat, sym: SymTab, f: HFunc, s: HStmt) -> bool
    decreases d, s, 0nat,
{
    match s {
        HStmt::Let { local, init } => {
            &&& local.0 < f.locals@.len()
            &&& expr_ok(d, sym, f, true, init)
            &&& clear_ok(sym, init)
            &&& (match f.locals@[local.0 as int].ty {
                HType::Heap { inner } => *inner is Vec || (ctypes::ty_ok(sym, *inner) && local_known(
                    f,
                    init,
                )),
                _ => true,
            })
        },
        HStmt::Assign { op, place, value } => {
            &&& expr_ok(d, sym, f, true, place)
            &&& expr_ok(d, sym, f, true, value)
            &&& local_known(f, place)
            &&& clear_ok(sym, value)
            &&& !through_pointer(f, place) && op is Assign ==> drops::embed_ok(sym, place.ty) && (
            overwrites(op, place, value) ==> drops::drop_ok(sym, place.ty))
        },
        HStmt::ExprStmt(e) => expr_ok(d, sym, f, true, e),
        HStmt::Return { value, heap_drops } => {
            &&& frames::releases_ok(sym, f, heap_drops@)
            &&& (match value {
                Some(e) => expr_ok(d, sym, f, true, e) && clear_ok(sym, e),
                None => true,
            })
        },
        HStmt::Propagate { value } => match value {
            Some(e) => expr_ok(d, sym, f, true, e),
            None => true,
        },
        HStmt::If { cond, then_b, else_b } => {
            &&& expr_ok(d, sym, f, true, cond)
            &&& stmts_ok(d, sym, f, true, then_b.stmts, then_b.stmts@.len())
            &&& frames::releases_ok(sym, f, then_b.heap_to_free@)
            &&& (match else_b {
                Some(b) => stmts_ok(d, sym, f, true, b.stmts, b.stmts@.len()) && frames::releases_ok(
                    sym,
                    f,
                    b.heap_to_free@,
                ),
                None => true,
            })
        },
        HStmt::While { cond, body } => {
            &&& expr_ok(d, sym, f, true, cond)
            &&& stmts_ok(d, sym, f, true, body.stmts, body.stmts@.len())
            &&& frames::releases_ok(sym, f, body.heap_to_free@)
        },
        HStmt::Block(b) => stmts_ok(d, sym, f, true, b.stmts, b.stmts@.len()) && frames::releases_ok(
            sym,
            f,
            b.heap_to_free@,
        ),
        HStmt::Unsafe(b) => stmts_ok(d, sym, f, true, b.stmts, b.stmts@.len()) && frames::releases_ok(
            sym,
            f,
            b.heap_to_free@,
        ),
        HStmt::Break | HStmt::Continue => true,
        HStmt::ForC { init, cond, step, body } => {
            &&& inline_stmt_ok(d, sym, f, *init)
            &&& expr_ok(d, sym, f, true, cond)
            &&& step_ok(d, sym, f, true, *step)
            &&& stmts_ok(d, sym, f, true, body.stmts, body.stmts@.len())
            &&& frames::releases_ok(sym, f, body.heap_to_free@)
        },
        HStmt::ForEach { .. } => true,
    }
}

/// The body of the inline function `g` can be expanded where a value of type `ty`
/// is expected.
pub open spec fn expansion_ok(d: nat, sym: SymTab, g: HFunc, ty: HType) -> bool
    decreases d, g.body, 1nat,
{
    &&& ctypes::params_ok(sym, g)
    &&& ty is Unit || ctypes::ty_ok(sym, ty)
    &&& frames::spliced_locals_ok(sym, g)
    &&& stmts_ok(d, sym, g, true, g.body.stmts, g.body.stmts@.len())
    &&& frames::releases_ok(sym, g, g.body.heap_to_free@)
}

/// Where all of several expressions can be lowered, each can.
pub proof fn lemma_exprs_ok(
    d: nat,
    sym: SymTab,
    f: HFunc,
    spliced: bool,
    v: Vec<HExpr>,
    from: nat,
    n: nat,
    i: int,
)
    requires
        exprs_ok(d, sym, f, spliced, v, from, n),
        from <= i < n <= v@.len(),
    ensures
        expr_ok(d, sym, f, spliced, v@[i]),
    decreases n,
{
    reveal(expr_ok);
    if i < n - 1 {
        lemma_exprs_ok(d, sym, f, spliced, v, from, (n - 1) as nat, i);
    }
}

/// Where all of several field values can be lowered, each can.
pub proof fn lemma_values_ok(
    d: nat,
    sym: SymTab,
    f: HFunc,
    spliced: bool,
    fields: Vec<(usize, HExpr)>,
    n: nat,
    i: int,
)
    requires
        values_ok(d, sym, f, spliced, fields, n),
        0 <= i < n,
    ensures
        match frames::value_from(fields@, i, 0) {
            Some(p) => expr_ok(d, sym, f, spliced, fields@[p].1),
            None => true,
        },
    decreases n,
{
    reveal(expr_ok);
    if i < n - 1 {
        lemma_values_ok(d, sym, f, spliced, fields, (n - 1) as nat, i);
    }
}

/// Where all of several arms can be lowered, each can.
pub proof fn lemma_arms_ok(
    d: nat,
    sym: SymTab,
    f: HFunc,
    spliced: bool,
    arms: Vec<HMatchArm>,
    n: nat,
    i: int,
)
    requires
        arms_ok(d, sym, f, spliced, arms, n),
        0 <= i < n <= arms@.len(),
    ensures
        arm_ok(d, sym, f, spliced, arms@[i]),
    decreases n,
{
    if i < n - 1 {
        lemma_arms_ok(d, sym, f, spliced, arms, (n - 1) as nat, i);
    }
}

/// Where all of several statements can be lowered, each can.
pub proof fn lemma_stmts_ok(
    d: nat,
    sym: SymTab,
    f: HFunc,
    spliced: bool,
    v: Vec<HStmt>,
    n: nat,
    i: int,
)
    requires
        stmts_ok(d, sym, f, spliced, v, n),
        0 <= i < n <= v@.len(),
    ensures
        if spliced {
            inline_stmt_ok(d, sym, f, v@[i])
        } else {
            stmt_ok(d, sym, f, v@[i])
        },
    decreases n,
{
    reveal(stmt_ok);
    reveal(inline_stmt_ok);
    if i < n - 1 {
        lemma_stmts_ok(d, sym, f, spliced, v, (n - 1) as nat, i);
    }
}

} // verus!
