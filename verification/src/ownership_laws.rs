//! What lowered code promises about ownership and control flow.
use vstd::prelude::*;

use crate::analysis;
use crate::context::{Cx, Out, St};
use crate::ctypes;
use crate::drops;
use crate::frames;
use crate::hir::{
    FuncId, HAssignOp, HBlock, HExpr, HExprKind, HFunc, HMatchArm, HStmt, HType, LocalId,
};
use crate::lowered;
use crate::operators;
use crate::text;
use crate::validity;
use crate::values;

verus! {

/// `p!` adds no test: it is the pointer's target, or for a pointer to an array, which
/// is held as a pointer to its first element, the pointer itself. Whether the front end
/// proved the pointer non-null makes no difference.
pub proof fn law_unwrap_has_no_test(d: nat, cx: Cx, st: St, p: HExpr, ty: HType, proven: bool)
    ensures
        ({
            let o = lowered::expr_c(d, cx, st, p);
            let e = HExpr { kind: HExprKind::Unwrap { expr: Box::new(p), skip_check: proven }, ty };
            lowered::expr_c(d, cx, st, e) == (if values::points_to_array(p.ty) {
                o
            } else {
                lowered::with_text(o, "(*("@ + o.text + "))"@)
            })
        }),
{
    reveal(lowered::expr_c);
}

/// The text that releases one local at the end of its block.
pub open spec fn released_c(cx: Cx, id: LocalId) -> Seq<char> {
    let li = cx.f.locals@[id.0 as int];
    text::line_c(cx.ind, "/* drop heap "@ + li.name@ + " */"@) + drops::field_drop_c(
        cx.sym,
        cx.owns,
        cx.ind,
        ctypes::local_c(id, li.name@),
        li.ty,
        0,
    )
}

proof fn lemma_released(cx: Cx, ids: Seq<LocalId>, n: nat, i: int)
    requires
        0 <= i < n <= ids.len(),
    ensures
        text::has_part(frames::release_text(cx.sym, cx.owns, cx.f, cx.ind, ids, n), released_c(cx, ids[i])),
    decreases n,
{
    let before = frames::release_text(cx.sym, cx.owns, cx.f, cx.ind, ids, (n - 1) as nat);
    let last = released_c(cx, ids[n - 1]);
    assert(frames::release_text(cx.sym, cx.owns, cx.f, cx.ind, ids, n) =~= before + last);
    if i == n - 1 {
        text::lemma_part_last(before, last);
    } else {
        lemma_released(cx, ids, (n - 1) as nat, i);
        text::lemma_part_kept(before, last, released_c(cx, ids[i]));
    }
}

/// The end of a block, after its statements, releases every local that the block owns.
pub proof fn law_block_releases_its_locals(d: nat, cx: Cx, st: St, b: HBlock, i: int)
    requires
        0 <= i < b.heap_to_free@.len(),
    ensures
        exists|end: Seq<char>|
            lowered::block_c(d, cx, st, b).text == lowered::stmts_c(d, cx, st, b.stmts, b.stmts@.len()).text + end
                && #[trigger] text::has_part(end, released_c(cx, b.heap_to_free@[i])),
{
    let n = b.heap_to_free@.len();
    let clears = frames::collapse_text(cx.f, cx.ind, b.ptr_nulls@, b.ptr_nulls@.len());
    let drops = frames::release_text(cx.sym, cx.owns, cx.f, cx.ind, b.heap_to_free@, n);
    let stmts = lowered::stmts_c(d, cx, st, b.stmts, b.stmts@.len()).text;
    lemma_released(cx, b.heap_to_free@, n, i);
    text::lemma_part_after(clears, drops, released_c(cx, b.heap_to_free@[i]));
    assert(lowered::block_c(d, cx, st, b).text =~= stmts + (clears + drops));
}

/// The text that releases one local before a return.
pub open spec fn returned_c(cx: Cx, ind: Seq<char>, id: LocalId) -> Seq<char> {
    let li = cx.f.locals@[id.0 as int];
    text::line_c(ind, "/* drop on return */"@) + drops::field_drop_c(
        cx.sym,
        cx.owns,
        ind,
        ctypes::local_c(id, li.name@),
        li.ty,
        0,
    )
}

proof fn lemma_returned(cx: Cx, ind: Seq<char>, ids: Seq<LocalId>, n: nat, i: int)
    requires
        0 <= i < n <= ids.len(),
    ensures
        text::has_part(
            frames::return_drops_text(cx.sym, cx.owns, cx.f, ind, ids, n),
            returned_c(cx, ind, ids[i]),
        ),
    decreases n,
{
    let before = frames::return_drops_text(cx.sym, cx.owns, cx.f, ind, ids, (n - 1) as nat);
    let last = returned_c(cx, ind, ids[n - 1]);
    assert(frames::return_drops_text(cx.sym, cx.owns, cx.f, ind, ids, n) =~= before + last);
    if i == n - 1 {
        text::lemma_part_last(before, last);
    } else {
        lemma_returned(cx, ind, ids, (n - 1) as nat, i);
        text::lemma_part_kept(before, last, returned_c(cx, ind, ids[i]));
    }
}

/// One part of the text stands, with no overlap, before another.
pub open spec fn in_order(whole: Seq<char>, first: Seq<char>, later: Seq<char>) -> bool {
    exists|a: Seq<char>, b: Seq<char>| whole == #[trigger] (a + b) && text::has_part(
        a,
        first,
    ) && text::has_part(b, later)
}

/// A return releases every local that it has to. The returned value is computed before.
pub proof fn law_return_releases_after_the_value(
    d: nat,
    cx: Cx,
    st: St,
    value: Option<HExpr>,
    drops: Seq<LocalId>,
    i: int,
)
    requires
        0 <= i < drops.len(),
    ensures
        ({
            let text = lowered::return_c(d, cx, st, value, drops).text;
            let inner = cx.nested();
            match value {
                Some(e) => if e.ty is Unit {
                    in_order(text, lowered::expr_c(d, cx, st, e).text, returned_c(cx, cx.ind, drops[i]))
                } else {
                    in_order(
                        text,
                        lowered::expr_c(d, inner, st, e).text,
                        returned_c(cx, inner.ind, drops[i]),
                    )
                },
                None => text::has_part(text, returned_c(cx, cx.ind, drops[i])),
            }
        }),
{
    reveal(lowered::return_c);
    reveal(lowered::expr_c);
    reveal(lowered::move_out_c);
    reveal(lowered::place_c);
    let text = lowered::return_c(d, cx, st, value, drops).text;
    let here = frames::return_drops_text(cx.sym, cx.owns, cx.f, cx.ind, drops, drops.len());
    let last = text::line_c(cx.ind, "return;"@);
    let cx2 = cx.nested();
    match value {
        Some(e) => if e.ty is Unit {
            let o = lowered::expr_c(d, cx, st, e).text;
            let first = text::line_c(cx.ind, "(void)("@ + o + ");"@);
            lemma_returned(cx, cx.ind, drops, drops.len(), i);
            text::lemma_part_kept(here, last, returned_c(cx, cx.ind, drops[i]));
            lemma_line_holds(cx.ind, "(void)("@, o, ");"@);
            assert(text =~= first + (here + last));
        } else {
            let o = lowered::expr_c(d, cx2, st, e).text;
            let decl = ctypes::decl_c(cx.sym, e.ty, "__ret"@) + " = "@;
            let first = text::line_c(cx.ind, "{"@) + text::line_c(cx2.ind, decl + o + ";"@);
            let inner = frames::return_drops_text(cx.sym, cx.owns, cx.f, cx2.ind, drops, drops.len());
            let tail = text::line_c(cx2.ind, "return __ret;"@) + text::line_c(cx.ind, "}"@);
            let m = lowered::move_out_c(d, cx2, lowered::expr_c(d, cx2, st, e).st, e).text;
            lemma_returned(cx, cx2.ind, drops, drops.len(), i);
            text::lemma_part_kept(inner, tail, returned_c(cx, cx2.ind, drops[i]));
            text::lemma_part_after(m, inner + tail, returned_c(cx, cx2.ind, drops[i]));
            lemma_line_holds(cx2.ind, decl, o, ";"@);
            text::lemma_part_after(text::line_c(cx.ind, "{"@), text::line_c(cx2.ind, decl + o + ";"@), o);
            assert(text =~= first + (m + (inner + tail)));
        },
        None => {
            lemma_returned(cx, cx.ind, drops, drops.len(), i);
            text::lemma_part_kept(here, last, returned_c(cx, cx.ind, drops[i]));
        },
    }
}

proof fn lemma_line_holds(ind: Seq<char>, a: Seq<char>, part: Seq<char>, b: Seq<char>)
    ensures
        text::has_part(text::line_c(ind, a + part + b), part),
{
    text::lemma_part_last(a, part);
    text::lemma_part_kept(a + part, b, part);
    text::lemma_part_after(ind, a + part + b, part);
    text::lemma_part_kept(ind + (a + part + b), "\n"@, part);
}

/// Overwriting an owning place first releases what it held, unless the new value is read
/// from the same local, from which it may have been moved.
pub proof fn law_reassignment_releases_the_old_value(
    d: nat,
    cx: Cx,
    st: St,
    place: HExpr,
    value: HExpr,
    root: u32,
)
    requires
        !validity::through_pointer(cx.f, place),
        analysis::root_of(place) == Some(root),
        drops::ty_owns(cx.sym, cx.owns, place.ty),
    ensures
        ({
            let s = HStmt::Assign { op: HAssignOp::Assign, place, value };
            let l = lowered::place_c(d, cx, st, place);
            let r = lowered::expr_c(d, cx, l.st, value);
            let set = text::line_c(cx.ind, l.text + " = "@ + r.text + ";"@) + lowered::move_out_c(
                d,
                cx,
                r.st,
                value,
            ).text;
            lowered::assign_c(d, cx, st, s).text == (if analysis::reads_local(value, root) {
                set
            } else {
                drops::field_drop_c(cx.sym, cx.owns, cx.ind, l.text, place.ty, 0) + set
            })
        }),
{
    reveal(lowered::assign_c);
    reveal(lowered::place_c);
    reveal(lowered::expr_c);
    reveal(lowered::move_out_c);
    reveal_strlit("");
    reveal_strlit(" ");
    reveal_strlit("=");
    reveal_strlit(" = ");
    let l = lowered::place_c(d, cx, st, place);
    let r = lowered::expr_c(d, cx, l.st, value);
    let m = lowered::move_out_c(d, cx, r.st, value).text;
    let set = text::line_c(cx.ind, l.text + " = "@ + r.text + ";"@);
    assert(l.text + " "@ + operators::assign_text(HAssignOp::Assign) + " "@ + r.text + ";"@ =~= l.text + " = "@
        + r.text + ";"@);
    let drop = drops::field_drop_c(cx.sym, cx.owns, cx.ind, l.text, place.ty, 0);
    assert(drop + set + m =~= drop + (set + m));
    assert(""@ + set + m =~= set + m);
}

/// A value that is moved out of an owned field or element into a new local leaves null or an
/// empty vector behind, so that the owner's release finds nothing there.
pub proof fn law_moved_field_is_cleared(d: nat, cx: Cx, st: St, id: LocalId, init: HExpr)
    requires
        validity::clears_source(init),
        !(cx.f.locals@[id.0 as int].ty is Array),
    ensures
        exists|first: Seq<char>|
            lowered::let_c(d, cx, st, id, init).text == #[trigger] (first + text::line_c(
                cx.ind,
                lowered::cleared_c(cx.sym, init.ty, lowered::place_c(d, cx, lowered::expr_c(d, cx, st, init).st, init).text),
            )),
{
    reveal(lowered::let_c);
    reveal(lowered::move_out_c);
    reveal(lowered::place_c);
    reveal(lowered::expr_c);
    let li = cx.f.locals@[id.0 as int];
    let name = ctypes::local_c(id, li.name@);
    let o = lowered::expr_c(d, cx, st, init);
    let ptr = ctypes::ty_c(cx.sym, li.ty);
    let first = match li.ty {
        HType::Heap { inner } => if *inner is Vec {
            text::line_c(cx.ind, ctypes::ty_c(cx.sym, *inner) + " "@ + name + " = "@ + o.text + ";"@)
        } else if validity::hands_over(li.ty, init) {
            text::line_c(cx.ind, ptr + " "@ + name + " = "@ + o.text + ";"@)
        } else {
            text::line_c(
                cx.ind,
                ptr + " "@ + name + " = ("@ + ptr + ")malloc(sizeof("@ + ctypes::ty_c(cx.sym, *inner)
                    + "));"@,
            ) + text::line_c(cx.ind, "*"@ + name + " = "@ + o.text + ";"@)
        },
        _ => text::line_c(
            cx.ind,
            (if li.thread_local { "static __thread "@ } else { ""@ }) + ctypes::decl_c(
                cx.sym,
                li.ty,
                name,
            ) + " = "@ + o.text + ";"@,
        ),
    };
    let place = lowered::place_c(d, cx, o.st, init).text;
    let cleared = text::line_c(cx.ind, lowered::cleared_c(cx.sym, init.ty, place));
    assert(lowered::let_c(d, cx, st, id, init).text == first + cleared);
}

/// An assignment that moves a value out of an owned field or element, through a pointer or
/// not, leaves null or an empty vector behind.
pub proof fn law_assigned_field_is_cleared(
    d: nat,
    cx: Cx,
    st: St,
    op: HAssignOp,
    place: HExpr,
    value: HExpr,
)
    requires
        validity::clears_source(value),
    ensures
        exists|first: Seq<char>, at: St|
            lowered::assign_c(d, cx, st, HStmt::Assign { op, place, value }).text == #[trigger] (first
                + text::line_c(cx.ind, lowered::cleared_c(cx.sym, value.ty, lowered::place_c(d, cx, at, value).text))),
{
    reveal(lowered::assign_c);
    reveal(lowered::move_out_c);
    reveal(lowered::place_c);
    reveal(lowered::expr_c);
    let l = lowered::place_c(d, cx, st, place);
    let r = lowered::expr_c(d, cx, l.st, value);
    let (first, at) = match place.kind {
        HExprKind::Unwrap { expr, .. } => {
            let i = lowered::expr_c(d, cx, r.st, *expr);
            (
                text::line_c(
                    cx.ind,
                    "*("@ + i.text + ") "@ + operators::assign_text(op) + " "@ + r.text + ";"@,
                ),
                i.st,
            )
        },
        _ => if validity::through_pointer(cx.f, place) {
            (
                text::line_c(cx.ind, "*"@ + l.text + " "@ + operators::assign_text(op) + " "@ + r.text + ";"@),
                r.st,
            )
        } else {
            let drop = if validity::overwrites(op, place, value) && drops::ty_owns(cx.sym, cx.owns, place.ty) {
                drops::field_drop_c(cx.sym, cx.owns, cx.ind, l.text, place.ty, 0)
            } else {
                ""@
            };
            (
                drop + text::line_c(
                    cx.ind,
                    l.text + " "@ + operators::assign_text(op) + " "@ + r.text + ";"@,
                ),
                r.st,
            )
        },
    };
    let text = lowered::place_c(d, cx, at, value).text;
    assert(lowered::assign_c(d, cx, st, HStmt::Assign { op, place, value }).text == first + text::line_c(
        cx.ind,
        lowered::cleared_c(cx.sym, value.ty, text),
    ));
}

/// Nothing is cleared that is only borrowed: a value read through `&T`, `*T` or `raw *T`
/// stays where it is.
pub proof fn law_borrowed_places_are_kept(d: nat, cx: Cx, st: St, src: HExpr, base: HExpr)
    requires
        match src.kind {
            HExprKind::Field { base: b, .. } => *b == base,
            HExprKind::Index { base: b, .. } => *b == base,
            _ => false,
        },
        match base.ty {
            HType::Ref { mutable, .. } => !mutable,
            HType::Ptr { .. } | HType::RawPtr { .. } => true,
            _ => false,
        },
    ensures
        lowered::move_out_c(d, cx, st, src) == (Out { text: ""@, st }),
{
    reveal(lowered::move_out_c);
}

/// In the body of an inline function `propagate` returns from the function that the body
/// is spliced into.
pub proof fn law_propagate_returns_from_the_caller(
    d: nat,
    cx: Cx,
    st: St,
    value: Option<HExpr>,
)
    ensures
        lowered::inline_stmt_c(d, cx, st, HStmt::Propagate { value }) == (match value {
            Some(e) => {
                let o = lowered::expr_c(d, cx, st, e);
                lowered::with_text(o, "return "@ + o.text + "; "@)
            },
            None => Out { text: "return; "@, st },
        }),
{
    reveal(lowered::inline_stmt_c);
    reveal(lowered::expr_c);
}

/// In the body of an inline function `return` jumps to the end of the expansion.
pub proof fn law_inline_return_jumps_to_the_end(
    d: nat,
    cx: Cx,
    st: St,
    value: Option<HExpr>,
    heap_drops: Vec<LocalId>,
)
    requires
        cx.spliced(),
    ensures
        exists|first: Seq<char>|
            lowered::inline_stmt_c(d, cx, st, HStmt::Return { value, heap_drops }).text
                == #[trigger] (first + ("goto end_"@ + cx.tag->0 + "; "@)),
{
    reveal(lowered::inline_stmt_c);
    reveal(lowered::place_c);
    reveal(lowered::expr_c);
    let tag = cx.tag->0;
    let jump = "goto end_"@ + tag + "; "@;
    let drops = frames::spliced_drops(
        cx.sym,
        cx.owns,
        cx.ind,
        cx.f,
        tag,
        heap_drops@,
        cx.f.body.heap_to_free@,
        heap_drops@.len(),
    );
    let text = lowered::inline_stmt_c(d, cx, st, HStmt::Return { value, heap_drops }).text;
    match value {
        Some(e) => {
            let v = lowered::expr_c(d, cx, st, e).text;
            let first = (if cx.wanted { "__r_"@ + tag + " = ("@ } else { "(void)("@ }) + v + "); "@;
            if cx.wanted && validity::clears_source(e) {
                let p = lowered::place_c(d, cx, lowered::expr_c(d, cx, st, e).st, e).text;
                let clear = lowered::cleared_c(cx.sym, e.ty, p) + " "@;
                assert(text =~= (first + clear + drops) + jump);
            } else {
                assert(text =~= (first + drops) + jump);
            }
        },
        None => {
            assert(text =~= drops + jump);
        },
    }
}

proof fn lemma_spliced_drop(
    cx: Cx,
    g: HFunc,
    tag: Seq<char>,
    ids: Seq<LocalId>,
    kept: Seq<LocalId>,
    n: nat,
    i: int,
)
    requires
        0 <= i < n <= ids.len(),
        !kept.contains(ids[i]),
    ensures
        text::has_part(
            frames::spliced_drops(cx.sym, cx.owns, cx.ind, g, tag, ids, kept, n),
            frames::spliced_drop(cx.sym, cx.owns, cx.ind, g, tag, ids[i]),
        ),
    decreases n,
{
    let before = frames::spliced_drops(cx.sym, cx.owns, cx.ind, g, tag, ids, kept, (n - 1) as nat);
    let last = if kept.contains(ids[n - 1]) {
        ""@
    } else {
        frames::spliced_drop(cx.sym, cx.owns, cx.ind, g, tag, ids[n - 1])
    };
    if i == n - 1 {
        text::lemma_part_last(before, last);
    } else {
        lemma_spliced_drop(cx, g, tag, ids, kept, (n - 1) as nat, i);
        text::lemma_part_kept(before, last, frames::spliced_drop(cx.sym, cx.owns, cx.ind, g, tag, ids[i]));
    }
}

/// A return in the body of an inline function releases, after its value is computed, what it
/// has to and the end of the expansion does not.
pub proof fn law_inline_return_releases_the_rest(
    d: nat,
    cx: Cx,
    st: St,
    value: Option<HExpr>,
    heap_drops: Vec<LocalId>,
    i: int,
)
    requires
        0 <= i < heap_drops@.len(),
        !cx.f.body.heap_to_free@.contains(heap_drops@[i]),
    ensures
        ({
            let text = lowered::inline_stmt_c(d, cx, st, HStmt::Return { value, heap_drops }).text;
            let drop = frames::spliced_drop(cx.sym, cx.owns, cx.ind, cx.f, cx.tag->0, heap_drops@[i]);
            match value {
                Some(e) => in_order(text, lowered::expr_c(d, cx, st, e).text, drop),
                None => text::has_part(text, drop),
            }
        }),
{
    reveal(lowered::inline_stmt_c);
    reveal(lowered::place_c);
    reveal(lowered::expr_c);
    let tag = cx.tag->0;
    let kept = cx.f.body.heap_to_free@;
    let n = heap_drops@.len();
    let drops = frames::spliced_drops(cx.sym, cx.owns, cx.ind, cx.f, tag, heap_drops@, kept, n);
    let drop = frames::spliced_drop(cx.sym, cx.owns, cx.ind, cx.f, tag, heap_drops@[i]);
    let text = lowered::inline_stmt_c(d, cx, st, HStmt::Return { value, heap_drops }).text;
    let jump = "goto end_"@ + tag + "; "@;
    lemma_spliced_drop(cx, cx.f, tag, heap_drops@, kept, n, i);
    text::lemma_part_kept(drops, jump, drop);
    match value {
        Some(e) => {
            let v = lowered::expr_c(d, cx, st, e).text;
            let head = if cx.wanted { "__r_"@ + tag + " = ("@ } else { "(void)("@ };
            text::lemma_part_last(head, v);
            text::lemma_part_kept(head + v, "); "@, v);
            if cx.wanted && validity::clears_source(e) {
                let p = lowered::place_c(d, cx, lowered::expr_c(d, cx, st, e).st, e).text;
                let clear = lowered::cleared_c(cx.sym, e.ty, p) + " "@;
                text::lemma_part_after(clear, drops + jump, drop);
                assert(text =~= (head + v + "); "@) + (clear + (drops + jump)));
            } else {
                assert(text =~= (head + v + "); "@) + (drops + jump));
            }
        },
        None => {
            assert(text =~= drops + jump);
        },
    }
}

/// A block in the body of an inline function releases every local that it owns at its end,
/// after its statements.
pub proof fn law_inline_block_releases_its_locals(d: nat, cx: Cx, st: St, b: HBlock, i: int)
    requires
        0 <= i < b.heap_to_free@.len(),
    ensures
        in_order(
            lowered::inline_stmt_c(d, cx, st, HStmt::Block(b)).text,
            lowered::inline_stmts_c(d, cx, st, b.stmts, b.stmts@.len()).text,
            frames::spliced_drop(cx.sym, cx.owns, cx.ind, cx.f, cx.tag->0, b.heap_to_free@[i]),
        ),
{
    reveal(lowered::inline_stmt_c);
    let tag = cx.tag->0;
    let ids = b.heap_to_free@;
    let none = Seq::<LocalId>::empty();
    let text = lowered::inline_stmt_c(d, cx, st, HStmt::Block(b)).text;
    let inner = lowered::inline_stmts_c(d, cx, st, b.stmts, b.stmts@.len()).text;
    let clears = frames::spliced_clears(tag, b.ptr_nulls@, b.ptr_nulls@.len());
    let drops = frames::spliced_drops(cx.sym, cx.owns, cx.ind, cx.f, tag, ids, none, ids.len());
    let drop = frames::spliced_drop(cx.sym, cx.owns, cx.ind, cx.f, tag, ids[i]);
    lemma_spliced_drop(cx, cx.f, tag, ids, none, ids.len(), i);
    text::lemma_part_after(clears, drops, drop);
    text::lemma_part_kept(clears + drops, "} "@, drop);
    text::lemma_part_last("{ "@, inner);
    assert(text =~= ("{ "@ + inner) + (clears + drops + "} "@));
}

/// An arm of a match releases every local that its body owns, after its value is computed.
pub proof fn law_arm_releases_its_locals(
    d: nat,
    cx: Cx,
    st: St,
    a: HMatchArm,
    wanted: bool,
    i: int,
)
    requires
        0 <= i < a.body.heap_to_free@.len(),
    ensures
        exists|first: Seq<char>|
            lowered::arm_body_c(d, cx, st, a, wanted).text == #[trigger] (first + lowered::arm_end(cx, a.body)),
        text::has_part(
            lowered::arm_end(cx, a.body),
            if cx.spliced() {
                frames::spliced_drop(
                    cx.sym,
                    cx.owns,
                    cx.ind,
                    cx.f,
                    cx.tag->0,
                    a.body.heap_to_free@[i],
                )
            } else {
                released_c(cx, a.body.heap_to_free@[i])
            },
        ),
{
    reveal(lowered::expr_c);
    let ids = a.body.heap_to_free@;
    let end = lowered::arm_end(cx, a.body);
    if cx.spliced() {
        let none = Seq::<LocalId>::empty();
        let tag = cx.tag->0;
        let clears = frames::spliced_clears(tag, a.body.ptr_nulls@, a.body.ptr_nulls@.len());
        let drops = frames::spliced_drops(cx.sym, cx.owns, cx.ind, cx.f, tag, ids, none, ids.len());
        let drop = frames::spliced_drop(cx.sym, cx.owns, cx.ind, cx.f, tag, ids[i]);
        lemma_spliced_drop(cx, cx.f, tag, ids, none, ids.len(), i);
        text::lemma_part_after(clears, drops, drop);
    } else {
        let clears = frames::collapse_text(cx.f, cx.ind, a.body.ptr_nulls@, a.body.ptr_nulls@.len());
        let drops = frames::release_text(cx.sym, cx.owns, cx.f, cx.ind, ids, ids.len());
        lemma_released(cx, ids, ids.len(), i);
        text::lemma_part_after(clears, drops, released_c(cx, ids[i]));
    }
    let s = if cx.spliced() {
        lowered::inline_stmts_c(d, cx, st, a.body.stmts, a.body.stmts@.len())
    } else {
        lowered::stmts_c(d, cx, st, a.body.stmts, a.body.stmts@.len())
    };
    let first = match a.value {
        Some(v) => s.text + (if wanted { "__r = ("@ } else { "(void)("@ }) + lowered::expr_c(
            d,
            cx,
            s.st,
            v,
        ).text + "); "@,
        None => s.text,
    };
    assert(lowered::arm_body_c(d, cx, st, a, wanted).text == first + end);
}

/// A value that is returned out of an owned field or element leaves null or an empty vector
/// behind before the owner is released, which then finds nothing there.
pub proof fn law_returned_field_is_cleared(
    d: nat,
    cx: Cx,
    st: St,
    e: HExpr,
    drops: Seq<LocalId>,
    i: int,
)
    requires
        validity::clears_source(e),
        0 <= i < drops.len(),
    ensures
        ({
            let inner = cx.nested();
            let place = lowered::place_c(d, inner, lowered::expr_c(d, inner, st, e).st, e).text;
            in_order(
                lowered::return_c(d, cx, st, Some(e), drops).text,
                text::line_c(inner.ind, lowered::cleared_c(cx.sym, e.ty, place)),
                returned_c(cx, inner.ind, drops[i]),
            )
        }),
{
    reveal(lowered::return_c);
    reveal(lowered::expr_c);
    reveal(lowered::move_out_c);
    reveal(lowered::place_c);
    let cx2 = cx.nested();
    let o = lowered::expr_c(d, cx2, st, e);
    let m = lowered::move_out_c(d, cx2, o.st, e).text;
    let first = text::line_c(cx.ind, "{"@) + text::line_c(
        cx2.ind,
        ctypes::decl_c(cx.sym, e.ty, "__ret"@) + " = "@ + o.text + ";"@,
    );
    let inner = frames::return_drops_text(cx.sym, cx.owns, cx.f, cx2.ind, drops, drops.len());
    let tail = text::line_c(cx2.ind, "return __ret;"@) + text::line_c(cx.ind, "}"@);
    lemma_returned(cx, cx2.ind, drops, drops.len(), i);
    text::lemma_part_kept(inner, tail, returned_c(cx, cx2.ind, drops[i]));
    text::lemma_part_last(first, m);
    assert(lowered::return_c(d, cx, st, Some(e), drops).text =~= (first + m) + (inner + tail));
}

/// The end of an expansion with its label set apart.
proof fn lemma_end_label(
    head: Seq<char>,
    tag: Seq<char>,
    frees: Seq<char>,
    result: Seq<char>,
    close: Seq<char>,
)
    ensures
        head + "} while (0); end_"@ + tag + ": ; "@ + frees + result + close == (head
            + "} while (0); "@ + ("end_"@ + tag + ": ; "@)) + (frees + (result + close)),
{
    reveal_strlit("} while (0); end_");
    reveal_strlit("} while (0); ");
    reveal_strlit("end_");
    assert("} while (0); end_"@ =~= "} while (0); "@ + "end_"@);
    assert(head + ("} while (0); "@ + "end_"@) + tag + ": ; "@ + frees + result + close =~= (head
        + "} while (0); "@ + ("end_"@ + tag + ": ; "@)) + (frees + (result + close)));
}

/// What an inline function owns is freed where the expansion ends: after the label that
/// its returns jump to.
pub proof fn law_expansion_frees_behind_its_end(
    d: nat,
    cx: Cx,
    st: St,
    callee: FuncId,
    args: Vec<HExpr>,
    ty: HType,
    at: int,
    i: int,
)
    requires
        d > 0,
        cx.sym.func_from(callee, 0) == Some(at),
        0 <= i < cx.sym.funcs@[at].body.heap_to_free@.len(),
    ensures
        ({
            let g = cx.sym.funcs@[at];
            let tag = lowered::expansion_tag(g, st.seq + 1);
            in_order(
                lowered::expansion_c(d, cx, st, callee, args, ty).text,
                "end_"@ + tag + ": ; "@,
                frames::spliced_drop(cx.sym, cx.owns, cx.ind, g, tag, g.body.heap_to_free@[i]),
            )
        }),
{
    reveal(lowered::expansion_c);
    let g = cx.sym.funcs@[at];
    let st2 = St { seq: st.seq + 1, ..st };
    let tag = lowered::expansion_tag(g, st2.seq);
    let a = lowered::exprs_c(d, cx, st2, args, 0, args@.len());
    let b = lowered::inline_stmts_c(
        (d - 1) as nat,
        cx.inside(g, tag, !(ty is Unit)),
        a.st,
        g.body.stmts,
        g.body.stmts@.len(),
    );
    let ids = g.body.heap_to_free@;
    let kept = Seq::<LocalId>::empty();
    let frees = frames::spliced_drops(cx.sym, cx.owns, cx.ind, g, tag, ids, kept, ids.len());
    let result = if ty is Unit { "MAKA_UNIT; "@ } else { "__r_"@ + tag + "; "@ };
    let head = "__extension__ ({ "@ + frames::spliced_params(cx.sym, g, tag, a.texts, g.params@.len()) + (
    if ty is Unit { ""@ } else { ctypes::ty_c(cx.sym, ty) + " __r_"@ + tag + " = {0}; "@ })
        + frames::spliced_locals(cx.sym, g, tag, g.locals@.len()) + "do { "@ + b.text;
    let label = "end_"@ + tag + ": ; "@;
    lemma_end_label(head, tag, frees, result, "})"@);
    lemma_spliced_drop(cx, g, tag, ids, kept, ids.len(), i);
    text::lemma_part_kept(frees, result + "})"@, frames::spliced_drop(cx.sym, cx.owns, cx.ind, g, tag, ids[i]));
    text::lemma_part_last(head + "} while (0); "@, label);
}

} // verus!
