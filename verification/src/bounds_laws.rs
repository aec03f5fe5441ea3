//! Where the check of an index is left out.
use vstd::prelude::*;

use crate::analysis;
use crate::analysis::BceBound;
use crate::context;
use crate::context::Cx;
use crate::hir::{HExpr, HExprKind, HMatchArm, HStmt, HType};
use crate::places;
use crate::text;

verus! {

/// The expression `part` stands in `e`, within the bodies of `loops`, which are the counting
/// loops between the two, outermost first.
pub open spec fn stands(e: HExpr, part: HExpr, loops: Seq<HStmt>) -> bool
    decreases e, 1nat,
{
    (e == part && loops.len() == 0) || stands_inside(e, part, loops)
}

/// The expression `part` stands in a part of the expression `e`.
pub open spec fn stands_inside(e: HExpr, part: HExpr, loops: Seq<HStmt>) -> bool
    decreases e, 0nat,
{
    match e.kind {
        HExprKind::Bin { lhs, rhs, .. } => stands(*lhs, part, loops) || stands(*rhs, part, loops),
        HExprKind::Un { expr, .. } => stands(*expr, part, loops),
        HExprKind::Unwrap { expr, .. } => stands(*expr, part, loops),
        HExprKind::AddrOfRef { place, .. } => stands(*place, part, loops),
        HExprKind::Field { base, .. } => stands(*base, part, loops),
        HExprKind::Index { base, idx } => stands(*base, part, loops) || stands(*idx, part, loops),
        HExprKind::Call { args, .. } => any_stands(args, args@.len(), part, loops),
        HExprKind::Cast { expr, .. } => stands(*expr, part, loops),
        HExprKind::CheckedCast { expr, .. } => stands(*expr, part, loops),
        HExprKind::DropWrite(x) => stands(*x, part, loops),
        HExprKind::ArrayToSlice { base, .. } => stands(*base, part, loops),
        HExprKind::DerefRef(x) => stands(*x, part, loops),
        HExprKind::HeapAlloc(x) => stands(*x, part, loops),
        HExprKind::Free(x) => stands(*x, part, loops),
        HExprKind::CallIndirect { callee, args } => stands(*callee, part, loops) || any_stands(
            args,
            args@.len(),
            part,
            loops,
        ),
        HExprKind::InlineCall { args, .. } => any_stands(args, args@.len(), part, loops),
        HExprKind::Closure { env_values, .. } => any_stands(
            env_values,
            env_values@.len(),
            part,
            loops,
        ),
        HExprKind::Transfer(x) => stands(*x, part, loops),
        HExprKind::SliceLen(x) => stands(*x, part, loops),
        HExprKind::EnumTag(x) => stands(*x, part, loops),
        HExprKind::VariantCtor { fields, .. } => field_stands(fields, fields@.len(), part, loops),
        HExprKind::Match { scrutinee, arms, .. } => stands(*scrutinee, part, loops) || arm_stands(
            arms,
            arms@.len(),
            part,
            loops,
        ),
        HExprKind::Struct { fields, .. } => field_stands(fields, fields@.len(), part, loops),
        HExprKind::ArrayLit(es) => any_stands(es, es@.len(), part, loops),
        _ => false,
    }
}

/// The expression stands in one of the first `k` expressions.
pub open spec fn any_stands(v: Vec<HExpr>, k: nat, part: HExpr, loops: Seq<HStmt>) -> bool
    decreases v, k,
{
    0 < k <= v@.len() && {
        ||| any_stands(v, (k - 1) as nat, part, loops)
        ||| stands(v@[k - 1], part, loops)
    }
}

/// The expression stands in one of the first `k` field values.
pub open spec fn field_stands(
    v: Vec<(usize, HExpr)>,
    k: nat,
    part: HExpr,
    loops: Seq<HStmt>,
) -> bool
    decreases v, k,
{
    0 < k <= v@.len() && {
        ||| field_stands(v, (k - 1) as nat, part, loops)
        ||| stands(v@[k - 1].1, part, loops)
    }
}

/// The expression stands in a guard, the statements or the value of one of the first `k`
/// arms.
pub open spec fn arm_stands(v: Vec<HMatchArm>, k: nat, part: HExpr, loops: Seq<HStmt>) -> bool
    decreases v, k,
{
    0 < k <= v@.len() && {
        let a = v@[k - 1];
        ||| arm_stands(v, (k - 1) as nat, part, loops)
        ||| (match a.guard {
            Some(g) => stands(g, part, loops),
            None => false,
        })
        ||| stmts_stand(a.body.stmts, a.body.stmts@.len(), part, loops)
        ||| (match a.value {
            Some(x) => stands(x, part, loops),
            None => false,
        })
    }
}

/// The expression stands in the statement.
pub open spec fn stmt_stands(s: HStmt, part: HExpr, loops: Seq<HStmt>) -> bool
    decreases s, 0nat,
{
    match s {
        HStmt::Let { init, .. } => stands(init, part, loops),
        HStmt::Assign { place, value, .. } => stands(
            place,
            part,
            loops,
        ) || stands(value, part, loops),
        HStmt::ExprStmt(e) => stands(e, part, loops),
        HStmt::Return { value, .. } => match value {
            Some(e) => stands(e, part, loops),
            None => false,
        },
        HStmt::If { cond, then_b, else_b } => {
            ||| stands(cond, part, loops)
            ||| stmts_stand(then_b.stmts, then_b.stmts@.len(), part, loops)
            ||| (match else_b {
                Some(b) => stmts_stand(b.stmts, b.stmts@.len(), part, loops),
                None => false,
            })
        },
        HStmt::While { cond, body } => stands(cond, part, loops) || stmts_stand(
            body.stmts,
            body.stmts@.len(),
            part,
            loops,
        ),
        HStmt::Block(b) => stmts_stand(b.stmts, b.stmts@.len(), part, loops),
        HStmt::Unsafe(b) => stmts_stand(b.stmts, b.stmts@.len(), part, loops),
        HStmt::Break | HStmt::Continue => false,
        HStmt::ForC { init, cond, step, body } => {
            ||| stmt_stands(*init, part, loops)
            ||| stands(cond, part, loops)
            ||| stmt_stands(*step, part, loops)
            ||| loops.len() > 0 && loops[0] == s && stmts_stand(
                body.stmts,
                body.stmts@.len(),
                part,
                loops.skip(1),
            )
        },
        HStmt::ForEach { src, body, .. } => stands(src, part, loops) || stmts_stand(
            body.stmts,
            body.stmts@.len(),
            part,
            loops,
        ),
        HStmt::Propagate { value } => match value {
            Some(e) => stands(e, part, loops),
            None => false,
        },
    }
}

/// The expression stands in one of the first `k` statements.
pub open spec fn stmts_stand(v: Vec<HStmt>, k: nat, part: HExpr, loops: Seq<HStmt>) -> bool
    decreases v, k,
{
    0 < k <= v@.len() && {
        ||| stmts_stand(v, (k - 1) as nat, part, loops)
        ||| stmt_stands(v@[k - 1], part, loops)
    }
}

/// The counter of a loop and its bound, where the loop keeps it within one.
pub open spec fn loop_counter(s: HStmt) -> Option<(u32, BceBound)> {
    match s {
        HStmt::ForC { init, cond, step, body } => analysis::loop_bound(*init, cond, *step, body),
        _ => None,
    }
}

/// The context within the bodies of `loops`, the outermost first.
pub open spec fn in_loops(cx: Cx, loops: Seq<HStmt>) -> Cx
    decreases loops.len(),
{
    if loops.len() == 0 {
        cx
    } else {
        in_loops(cx.counting(loop_counter(loops[0])), loops.skip(1))
    }
}

/// The element `base[idx]` has the same text, whether the counters `x` or the counters `y`
/// are known.
pub open spec fn same_check(
    x: Seq<(u32, BceBound)>,
    y: Seq<(u32, BceBound)>,
    base: HExpr,
    idx: HExpr,
) -> bool {
    forall|b: Seq<char>, i: Seq<char>| #[trigger]
        places::index_text(x, base, idx, b, i) == places::index_text(y, base, idx, b, i)
}

/// The counter `c` by itself makes the check of `base[idx]` needless.
pub open spec fn bounds_index(c: (u32, BceBound), base: HExpr, idx: HExpr) -> bool {
    !same_check(seq![c], Seq::empty(), base, idx)
}

/// The length of the fixed array that a value of the type gives access to.
pub open spec fn indexed_len(t: HType) -> i64 {
    match t {
        HType::Array { len, .. } => len,
        HType::Heap { inner } | HType::Ref { inner, .. } | HType::Ptr { inner, .. } => match *inner {
            HType::Array { len, .. } => len,
            _ => 0,
        },
        _ => 0,
    }
}

/// One of the counters makes the check of `base[idx]` needless.
pub open spec fn some_bounds(x: Seq<(u32, BceBound)>, base: HExpr, idx: HExpr) -> bool {
    exists|i: int| 0 <= i < x.len() && bounds_index(#[trigger] x[i], base, idx)
}

/// Where an element is written without its check, one of the known counters is the reason,
/// or the index is a literal in range, which is so with no counters known too.
pub proof fn law_unchecked_index_is_bounded(x: Seq<(u32, BceBound)>, base: HExpr, idx: HExpr)
    requires
        !same_check(x, Seq::empty(), base, idx),
    ensures
        some_bounds(x, base, idx),
{
    lemma_reason(x, Seq::empty(), base, idx);
}

/// What the counters `x` leave out and the counters `y` do not, one of the counters of `x`
/// leaves out by itself.
pub proof fn lemma_reason(x: Seq<(u32, BceBound)>, y: Seq<(u32, BceBound)>, base: HExpr, idx: HExpr)
    requires
        !same_check(x + y, y, base, idx) || (y.len() == 0 && !same_check(x, y, base, idx)),
    ensures
        some_bounds(x, base, idx),
{
    let z = if !same_check(x + y, y, base, idx) { x + y } else { x };
    assert(y.len() == 0 ==> x + y =~= x);
    let (b, i) = choose|b: Seq<char>, i: Seq<char>| #[trigger]
        places::index_text(z, base, idx, b, i) != places::index_text(y, base, idx, b, i);
    let j = match base.ty {
        HType::Slice { .. } | HType::Vec { .. } => {
            match (base.kind, idx.kind) {
                (HExprKind::Local(v), HExprKind::Local(l)) => {
                    let at = (l.0, BceBound::SliceLen(v.0));
                    if places::slice_bounded(y, base, idx) {
                        let p = choose|p: int| 0 <= p < y.len() && #[trigger] y[p] == at;
                        assert(z[x.len() + p] == at);
                    }
                    assert(places::slice_bounded(z, base, idx) && !places::slice_bounded(y, base, idx));
                    let j = choose|j: int| 0 <= j < z.len() && #[trigger] z[j] == at;
                    assert(j >= x.len() ==> y[j - x.len()] == at);
                    assert(seq![x[j]][0] == at);
                    assert(places::slice_bounded(seq![x[j]], base, idx));
                    j
                },
                _ => 0,
            }
        },
        _ => {
            let len = indexed_len(base.ty);
            match idx.kind {
                HExprKind::Local(l) => {
                    if places::const_bounded(y, len, idx) {
                        let p = choose|p: int|
                            0 <= p < y.len() && (#[trigger] y[p]).0 == l.0 && (match y[p].1 {
                                BceBound::Const(ub) => ub <= len,
                                BceBound::SliceLen(_) => false,
                            });
                        assert(z[x.len() + p] == y[p]);
                    }
                    assert(places::const_bounded(z, len, idx) && !places::const_bounded(y, len, idx));
                    let j = choose|j: int|
                        0 <= j < z.len() && (#[trigger] z[j]).0 == l.0 && (match z[j].1 {
                            BceBound::Const(ub) => ub <= len,
                            BceBound::SliceLen(_) => false,
                        });
                    assert(j >= x.len() ==> y[j - x.len()] == z[j]);
                    assert(seq![x[j]][0] == z[j]);
                    assert(places::const_bounded(seq![x[j]], len, idx));
                    j
                },
                _ => 0,
            }
        },
    };
    let none = Seq::<(u32, BceBound)>::empty();
    assert(places::index_text(seq![x[j]], base, idx, b, i) != places::index_text(none, base, idx, b, i));
    assert(bounds_index(x[j], base, idx));
}

/// The counters that are known within the bodies of `loops`, where `x` are known outside.
pub open spec fn loops_known(x: Seq<(u32, BceBound)>, loops: Seq<HStmt>) -> Seq<(u32, BceBound)>
    decreases loops.len(),
{
    if loops.len() == 0 {
        x
    } else {
        loops_known(context::counted(x, loop_counter(loops[0])), loops.skip(1))
    }
}

/// The context within loops knows their counters.
pub proof fn lemma_within(cx: Cx, loops: Seq<HStmt>)
    ensures
        in_loops(cx, loops) == cx.knowing(loops_known(cx.bounded, loops)),
    decreases loops.len(),
{
    if loops.len() > 0 {
        lemma_within(cx.counting(loop_counter(loops[0])), loops.skip(1));
    }
}

/// The counters of the loops follow those that were known before.
pub proof fn lemma_counters_follow(x: Seq<(u32, BceBound)>, loops: Seq<HStmt>)
    ensures
        loops_known(x, loops) == x + loops_known(Seq::empty(), loops),
    decreases loops.len(),
{
    let none = Seq::<(u32, BceBound)>::empty();
    if loops.len() == 0 {
        assert(x + none =~= x);
    } else {
        let c = loop_counter(loops[0]);
        let rest = loops.skip(1);
        lemma_counters_follow(context::counted(x, c), rest);
        lemma_counters_follow(context::counted(none, c), rest);
        let last = loops_known(none, rest);
        assert(context::counted(x, c) + last =~= x + (context::counted(none, c) + last));
    }
}

/// Every counter that the loops add is that of one of them.
proof fn lemma_counter_of(loops: Seq<HStmt>, i: int) -> (j: int)
    requires
        0 <= i < loops_known(Seq::empty(), loops).len(),
    ensures
        0 <= j < loops.len(),
        loop_counter(loops[j]) == Some(loops_known(Seq::empty(), loops)[i]),
    decreases loops.len(),
{
    let none = Seq::<(u32, BceBound)>::empty();
    let c = loop_counter(loops[0]);
    let rest = loops.skip(1);
    lemma_counters_follow(context::counted(none, c), rest);
    let first = context::counted(none, c);
    if i < first.len() {
        0
    } else {
        1 + lemma_counter_of(rest, i - first.len())
    }
}

/// The expression stands in the body of the counting loop `s`, within the bodies of `loops`.
pub open spec fn in_body(s: HStmt, part: HExpr, loops: Seq<HStmt>) -> bool {
    match s {
        HStmt::ForC { body, .. } => stmts_stand(body.stmts, body.stmts@.len(), part, loops),
        _ => false,
    }
}

proof fn lemma_body(e: HExpr, part: HExpr, loops: Seq<HStmt>, j: int)
    requires
        stands(e, part, loops),
        0 <= j < loops.len(),
    ensures
        in_body(loops[j], part, loops.skip(j + 1)),
    decreases e, 0nat,
{
    match e.kind {
        HExprKind::Bin { lhs, rhs, .. } => if stands(*lhs, part, loops) {
            lemma_body(*lhs, part, loops, j)
        } else {
            lemma_body(*rhs, part, loops, j)
        },
        HExprKind::Un { expr, .. } => lemma_body(*expr, part, loops, j),
        HExprKind::Unwrap { expr, .. } => lemma_body(*expr, part, loops, j),
        HExprKind::AddrOfRef { place, .. } => lemma_body(*place, part, loops, j),
        HExprKind::Field { base, .. } => lemma_body(*base, part, loops, j),
        HExprKind::Index { base, idx } => if stands(*base, part, loops) {
            lemma_body(*base, part, loops, j)
        } else {
            lemma_body(*idx, part, loops, j)
        },
        HExprKind::Call { args, .. } => lemma_body_any(args, args@.len(), part, loops, j),
        HExprKind::Cast { expr, .. } => lemma_body(*expr, part, loops, j),
        HExprKind::CheckedCast { expr, .. } => lemma_body(*expr, part, loops, j),
        HExprKind::DropWrite(a) => lemma_body(*a, part, loops, j),
        HExprKind::ArrayToSlice { base, .. } => lemma_body(*base, part, loops, j),
        HExprKind::DerefRef(a) => lemma_body(*a, part, loops, j),
        HExprKind::HeapAlloc(a) => lemma_body(*a, part, loops, j),
        HExprKind::Free(a) => lemma_body(*a, part, loops, j),
        HExprKind::CallIndirect { callee, args } => if stands(*callee, part, loops) {
            lemma_body(*callee, part, loops, j)
        } else {
            lemma_body_any(args, args@.len(), part, loops, j)
        },
        HExprKind::InlineCall { args, .. } => lemma_body_any(args, args@.len(), part, loops, j),
        HExprKind::Closure { env_values, .. } => lemma_body_any(
            env_values,
            env_values@.len(),
            part,
            loops,
            j,
        ),
        HExprKind::Transfer(a) => lemma_body(*a, part, loops, j),
        HExprKind::SliceLen(a) => lemma_body(*a, part, loops, j),
        HExprKind::EnumTag(a) => lemma_body(*a, part, loops, j),
        HExprKind::VariantCtor { fields, .. } => lemma_body_field(
            fields,
            fields@.len(),
            part,
            loops,
            j,
        ),
        HExprKind::Match { scrutinee, arms, .. } => if stands(*scrutinee, part, loops) {
            lemma_body(*scrutinee, part, loops, j)
        } else {
            lemma_body_arm(arms, arms@.len(), part, loops, j)
        },
        HExprKind::Struct { fields, .. } => lemma_body_field(fields, fields@.len(), part, loops, j),
        HExprKind::ArrayLit(es) => lemma_body_any(es, es@.len(), part, loops, j),
        _ => {},
    }
}

proof fn lemma_body_any(v: Vec<HExpr>, n: nat, part: HExpr, loops: Seq<HStmt>, j: int)
    requires
        any_stands(v, n, part, loops),
        0 <= j < loops.len(),
    ensures
        in_body(loops[j], part, loops.skip(j + 1)),
    decreases v, n,
{
    if any_stands(v, (n - 1) as nat, part, loops) {
        lemma_body_any(v, (n - 1) as nat, part, loops, j);
    } else {
        lemma_body(v@[n - 1], part, loops, j);
    }
}

proof fn lemma_body_field(v: Vec<(usize, HExpr)>, n: nat, part: HExpr, loops: Seq<HStmt>, j: int)
    requires
        field_stands(v, n, part, loops),
        0 <= j < loops.len(),
    ensures
        in_body(loops[j], part, loops.skip(j + 1)),
    decreases v, n,
{
    if field_stands(v, (n - 1) as nat, part, loops) {
        lemma_body_field(v, (n - 1) as nat, part, loops, j);
    } else {
        lemma_body(v@[n - 1].1, part, loops, j);
    }
}

proof fn lemma_body_arm(v: Vec<HMatchArm>, n: nat, part: HExpr, loops: Seq<HStmt>, j: int)
    requires
        arm_stands(v, n, part, loops),
        0 <= j < loops.len(),
    ensures
        in_body(loops[j], part, loops.skip(j + 1)),
    decreases v, n,
{
    if arm_stands(v, (n - 1) as nat, part, loops) {
        lemma_body_arm(v, (n - 1) as nat, part, loops, j);
    } else {
        let a = v@[n - 1];
        if stmts_stand(a.body.stmts, a.body.stmts@.len(), part, loops) {
            lemma_body_stmts(a.body.stmts, a.body.stmts@.len(), part, loops, j);
        } else if a.guard is Some && stands(a.guard->0, part, loops) {
            lemma_body(a.guard->0, part, loops, j);
        } else {
            lemma_body(a.value->0, part, loops, j);
        }
    }
}

proof fn lemma_body_stmt(s: HStmt, part: HExpr, loops: Seq<HStmt>, j: int)
    requires
        stmt_stands(s, part, loops),
        0 <= j < loops.len(),
    ensures
        in_body(loops[j], part, loops.skip(j + 1)),
    decreases s, 0nat,
{
    match s {
        HStmt::Let { init, .. } => lemma_body(init, part, loops, j),
        HStmt::Assign { place, value, .. } => if stands(place, part, loops) {
            lemma_body(place, part, loops, j)
        } else {
            lemma_body(value, part, loops, j)
        },
        HStmt::ExprStmt(e) => lemma_body(e, part, loops, j),
        HStmt::Return { value, .. } => lemma_body(value->0, part, loops, j),
        HStmt::Propagate { value } => lemma_body(value->0, part, loops, j),
        HStmt::If { cond, then_b, else_b } => if stands(cond, part, loops) {
            lemma_body(cond, part, loops, j)
        } else if stmts_stand(then_b.stmts, then_b.stmts@.len(), part, loops) {
            lemma_body_stmts(then_b.stmts, then_b.stmts@.len(), part, loops, j)
        } else {
            let b = else_b->0;
            lemma_body_stmts(b.stmts, b.stmts@.len(), part, loops, j)
        },
        HStmt::While { cond, body } => if stands(cond, part, loops) {
            lemma_body(cond, part, loops, j)
        } else {
            lemma_body_stmts(body.stmts, body.stmts@.len(), part, loops, j)
        },
        HStmt::Block(b) => lemma_body_stmts(b.stmts, b.stmts@.len(), part, loops, j),
        HStmt::Unsafe(b) => lemma_body_stmts(b.stmts, b.stmts@.len(), part, loops, j),
        HStmt::ForEach { src, body, .. } => if stands(src, part, loops) {
            lemma_body(src, part, loops, j)
        } else {
            lemma_body_stmts(body.stmts, body.stmts@.len(), part, loops, j)
        },
        HStmt::ForC { init, cond, step, body } => if stmt_stands(*init, part, loops) {
            lemma_body_stmt(*init, part, loops, j)
        } else if stands(cond, part, loops) {
            lemma_body(cond, part, loops, j)
        } else if stmt_stands(*step, part, loops) {
            lemma_body_stmt(*step, part, loops, j)
        } else if j > 0 {
            lemma_body_stmts(body.stmts, body.stmts@.len(), part, loops.skip(1), j - 1);
            assert(loops.skip(1).skip(j) =~= loops.skip(j + 1));
        },
        HStmt::Break | HStmt::Continue => {},
    }
}

proof fn lemma_body_stmts(v: Vec<HStmt>, n: nat, part: HExpr, loops: Seq<HStmt>, j: int)
    requires
        stmts_stand(v, n, part, loops),
        0 <= j < loops.len(),
    ensures
        in_body(loops[j], part, loops.skip(j + 1)),
    decreases v, n,
{
    if stmts_stand(v, (n - 1) as nat, part, loops) {
        lemma_body_stmts(v, (n - 1) as nat, part, loops, j);
    } else {
        lemma_body_stmt(v@[n - 1], part, loops, j);
    }
}

/// A bounds check is left out only inside the body of the loop that bounds the index, at any
/// depth: wherever an element stands in a statement, its check is left out because of a
/// counter that was known before the statement, or because of the counter of a loop of the
/// statement in whose body the element stands.
pub proof fn law_check_left_out_only_in_its_loop(
    cx: Cx,
    s: HStmt,
    base: HExpr,
    idx: HExpr,
    ty: HType,
    loops: Seq<HStmt>,
)
    requires
        stmt_stands(s, element(base, idx, ty), loops),
        !same_check(in_loops(cx, loops).bounded, Seq::empty(), base, idx),
    ensures
        some_bounds(cx.bounded, base, idx) || (exists|j: int|
            {
                &&& 0 <= j < loops.len()
                &&& in_body(#[trigger] loops[j], element(base, idx, ty), loops.skip(j + 1))
                &&& loop_counter(loops[j]) matches Some(c) && bounds_index(c, base, idx)
            }),
{
    let none = Seq::<(u32, BceBound)>::empty();
    lemma_within(cx, loops);
    lemma_counters_follow(cx.bounded, loops);
    let x = loops_known(cx.bounded, loops);
    law_unchecked_index_is_bounded(x, base, idx);
    let i = choose|i: int| 0 <= i < x.len() && bounds_index(#[trigger] x[i], base, idx);
    let n = cx.bounded.len();
    if i < n {
        assert(bounds_index(cx.bounded[i], base, idx));
    } else {
        let j = lemma_counter_of(loops, i - n);
        lemma_body_stmt(s, element(base, idx, ty), loops, j);
        assert(in_body(loops[j], element(base, idx, ty), loops.skip(j + 1)));
    }
}

/// The expression `base[idx]`.
pub open spec fn element(base: HExpr, idx: HExpr, ty: HType) -> HExpr {
    HExpr { kind: HExprKind::Index { base: Box::new(base), idx: Box::new(idx) }, ty }
}

proof fn lemma_inner_part(a: Seq<char>, b: Seq<char>, rest: Seq<char>, part: Seq<char>)
    requires
        text::has_part(b, part),
    ensures
        text::has_part(a + b + rest, part),
{
    text::lemma_part_after(a, b, part);
    text::lemma_part_kept(a + b, rest, part);
}

/// With no counters known, only a literal in range goes without a check.
pub proof fn law_unknown_index_is_checked(base: HExpr, idx: HExpr, b: Seq<char>, i: Seq<char>)
    requires
        base.ty is Array || base.ty is Slice || base.ty is Vec,
        match (idx.kind, base.ty) {
            (HExprKind::LitInt(n), HType::Array { len, .. }) => !(0 <= n < len),
            _ => true,
        },
    ensures
        text::has_part(places::index_text(Seq::empty(), base, idx, b, i), "maka_check_idx("@),
{
    let check = "maka_check_idx("@;
    reveal_strlit("maka_check_idx(");
    match base.ty {
        HType::Array { len, .. } => {
            reveal_strlit(")[maka_check_idx((maka_int)(");
            let t = ")[maka_check_idx((maka_int)("@;
            assert(t.subrange(2, 2 + check.len() as int) =~= check);
            let rest = i + "), (maka_int)"@ + text::decimal(len as int) + ", \"array idx\")])"@;
            lemma_inner_part("(("@ + b, t, rest, check);
            assert(places::index_text(Seq::empty(), base, idx, b, i) =~= "(("@ + b + t + rest);
        },
        HType::Slice { .. } => {
            reveal_strlit(").ptr[maka_check_idx((maka_int)(");
            let t = ").ptr[maka_check_idx((maka_int)("@;
            assert(t.subrange(6, 6 + check.len() as int) =~= check);
            let rest = i + "), ("@ + b + ").len, \"slice idx\")])"@;
            lemma_inner_part("(("@ + b, t, rest, check);
            assert(places::index_text(Seq::empty(), base, idx, b, i) =~= "(("@ + b + t + rest);
        },
        _ => {
            reveal_strlit(").data[maka_check_idx((maka_int)(");
            let t = ").data[maka_check_idx((maka_int)("@;
            assert(t.subrange(7, 7 + check.len() as int) =~= check);
            let rest = i + "), ("@ + b + ").len, \"vec idx\")])"@;
            lemma_inner_part("(("@ + b, t, rest, check);
            assert(places::index_text(Seq::empty(), base, idx, b, i) =~= "(("@ + b + t + rest);
        },
    }
}

} // verus!
