//! What lowered declarations, assignments, returns and loops over elements do.
use vstd::prelude::*;

use crate::context::{Cx, St};
use crate::ctypes;
use crate::drops;
use crate::frames;
use crate::hir::{HAssignOp, HBlock, HExpr, HExprKind, HFunc, HStmt, HType, LocalId, SymTab};
use crate::lowered;
use crate::operators;
use crate::text;
use crate::validity;

verus! {

/// The C name of a local: its own name and its number.
pub open spec fn numbered(f: HFunc, id: LocalId) -> Seq<char> {
    text::ident(f.locals@[id.0 as int].name@) + "_"@ + text::decimal(id.0 as int)
}

/// A declaration gives the local its initial value. Memory that it is to own is taken over
/// where the value is the pointer to it already, and else made and filled; a vector is held
/// as it is.
pub proof fn law_declaration_sets_its_local(d: nat, cx: Cx, st: St, id: LocalId, init: HExpr)
    ensures
        ({
            let li = cx.f.locals@[id.0 as int];
            let name = numbered(cx.f, id);
            let v = lowered::expr_c(d, cx, st, init).text;
            let text = lowered::let_c(d, cx, st, id, init).text;
            let clears = lowered::move_out_c(d, cx, lowered::expr_c(d, cx, st, init).st, init).text;
            match li.ty {
                HType::Heap { inner } => {
                    let made = text::line_c(cx.ind, ctypes::ty_c(cx.sym, li.ty) + " "@ + name
                        + " = "@ + v + ";"@);
                    if *inner is Vec {
                        text == text::line_c(
                            cx.ind,
                            ctypes::ty_c(cx.sym, *inner) + " "@ + name + " = "@ + v + ";"@,
                        ) + clears
                    } else if init.kind matches HExprKind::Local(src)
                        && cx.f.locals@[src.0 as int].ty is Heap {
                        text == text::line_c(
                            cx.ind,
                            ctypes::ty_c(cx.sym, li.ty) + " "@ + name + " = "@ + numbered(
                                cx.f,
                                init.kind->Local_0,
                            ) + "; /* moved */"@,
                        )
                    } else if init.kind is HeapAlloc || (init.kind is Call && init.ty is Heap) {
                        text == made + clears
                    } else if !(init.ty is Heap) && !(init.ty is OwnPtr) {
                        text == text::line_c(
                            cx.ind,
                            ctypes::ty_c(cx.sym, li.ty) + " "@ + name + " = ("@
                                + ctypes::ty_c(cx.sym, li.ty)
                                + ")malloc(sizeof("@ + ctypes::ty_c(cx.sym, *inner) + "));"@,
                        ) + text::line_c(cx.ind, "*"@ + name + " = "@ + v + ";"@) + clears
                    } else {
                        validity::owner_depth(init.ty) >= validity::owner_depth(li.ty) ==> text
                            == made + clears
                    }
                },
                HType::Array { .. } => text == text::line_c(
                    cx.ind,
                    ctypes::decl_c(cx.sym, li.ty, name) + " = "@ + v + ";"@,
                ),
                _ => if li.thread_local {
                    text == text::line_c(
                        cx.ind,
                        "static __thread "@ + ctypes::decl_c(cx.sym, li.ty, name) + " = "@ + v
                            + ";"@,
                    ) + clears
                } else {
                    text == text::line_c(cx.ind, ctypes::decl_c(cx.sym, li.ty, name) + " = "@ + v
                        + ";"@)
                        + clears
                },
            }
        }),
        lowered::stmt_c(d, cx, st, HStmt::Let { local: id, init }) == lowered::let_c(d, cx, st, id,
            init),
{
    reveal(lowered::let_c);
    reveal(lowered::stmt_c);
    reveal(lowered::expr_c);
    reveal(lowered::move_out_c);
    reveal_strlit("");
    let li = cx.f.locals@[id.0 as int];
    let name = numbered(cx.f, id);
    let v = lowered::expr_c(d, cx, st, init).text;
    assert(""@ + ctypes::decl_c(cx.sym, li.ty, name) + " = "@ + v + ";"@ =~= ctypes::decl_c(cx.sym,
        li.ty, name)
        + " = "@ + v + ";"@);
}

/// A value that is itself the owner is what stands the same number of owning pointers above
/// what it owns.
pub proof fn law_owner_depth(t: HType, inner: HType, mutable: bool)
    ensures
        validity::owner_depth(HType::Heap { inner: Box::new(inner) })
            == validity::owner_depth(inner) + 1,
        validity::owner_depth(HType::OwnPtr { inner: Box::new(inner), mutable })
            == validity::owner_depth(inner) + 1,
        !(t is Heap) && !(t is OwnPtr) ==> validity::owner_depth(t) == 0,
{
}

/// An assignment computes its place and then its value, and leaves in the place what its
/// operator makes of the two: in the place itself, or in what a pointer leads to.
pub proof fn law_assignment_sets_its_place(
    d: nat,
    cx: Cx,
    st: St,
    op: HAssignOp,
    place: HExpr,
    value: HExpr,
)
    ensures
        ({
            let s = HStmt::Assign { op, place, value };
            let l = lowered::place_c(d, cx, st, place);
            let r = lowered::expr_c(d, cx, l.st, value);
            let o = " "@ + operators::assign_text(op) + " "@;
            let text = lowered::assign_c(d, cx, st, s).text;
            match place.kind {
                HExprKind::Unwrap { expr, .. } => {
                    let p = lowered::expr_c(d, cx, r.st, *expr);
                    text == text::line_c(cx.ind, "*("@ + p.text + ")"@ + o + r.text + ";"@)
                        + lowered::move_out_c(
                        d,
                        cx,
                        p.st,
                        value,
                    ).text
                },
                HExprKind::Local(id) => {
                    let clears = lowered::move_out_c(d, cx, r.st, value).text;
                    match cx.f.locals@[id.0 as int].ty {
                        HType::Heap { inner } => if *inner is Vec {
                            exists|first: Seq<char>|
                                text == #[trigger] (first + text::line_c(
                                    cx.ind,
                                    l.text + o + r.text + ";"@,
                                ) + clears)
                        } else {
                            text == text::line_c(cx.ind, "*"@ + l.text + o + r.text + ";"@) + clears
                        },
                        HType::Ref { mutable, .. } => mutable ==> text == text::line_c(
                            cx.ind,
                            "*"@ + l.text + o + r.text + ";"@,
                        ) + clears,
                        _ => exists|first: Seq<char>|
                            text == #[trigger] (first + text::line_c(
                                cx.ind,
                                l.text + o + r.text + ";"@,
                            ) + clears),
                    }
                },
                _ => exists|first: Seq<char>|
                    text == #[trigger] (first + text::line_c(cx.ind, l.text + o + r.text + ";"@)
                        + lowered::move_out_c(d, cx, r.st, value).text),
            }
        }),
        lowered::stmt_c(d, cx, st, HStmt::Assign { op, place, value }) == lowered::assign_c(
            d,
            cx,
            st,
            HStmt::Assign { op, place, value },
        ),
{
    reveal(lowered::stmt_c);
    reveal(lowered::assign_c);
    reveal(lowered::place_c);
    reveal(lowered::expr_c);
    reveal(lowered::move_out_c);
    let s = HStmt::Assign { op, place, value };
    let l = lowered::place_c(d, cx, st, place);
    let r = lowered::expr_c(d, cx, l.st, value);
    let o = " "@ + operators::assign_text(op) + " "@;
    let m = lowered::move_out_c(d, cx, r.st, value).text;
    let a = operators::assign_text(op);
    assert(l.text + " "@ + a + " "@ + r.text + ";"@ =~= l.text + o + r.text + ";"@);
    assert("*"@ + l.text + " "@ + a + " "@ + r.text + ";"@ =~= "*"@ + l.text + o + r.text + ";"@);
    if let HExprKind::Unwrap { expr, .. } = place.kind {
        let p = lowered::expr_c(d, cx, r.st, *expr).text;
        reveal_strlit(") ");
        reveal_strlit(")");
        reveal_strlit(" ");
        assert("*("@ + p + ") "@ + a + " "@ + r.text + ";"@ =~= "*("@ + p + ")"@ + o + r.text
            + ";"@);
    } else if !validity::through_pointer(cx.f, place) {
        let drop = if validity::overwrites(op, place, value) && drops::ty_owns(cx.sym, cx.owns,
            place.ty) {
            drops::field_drop_c(cx.sym, cx.owns, cx.ind, l.text, place.ty, 0)
        } else {
            ""@
        };
        assert(lowered::assign_c(d, cx, st, s).text == drop + text::line_c(cx.ind, l.text + o
            + r.text + ";"@) + m);
    }
}

/// The step of a loop is an assignment without its semicolon.
pub proof fn law_step_sets_its_place(
    d: nat,
    cx: Cx,
    st: St,
    op: HAssignOp,
    place: HExpr,
    value: HExpr,
)
    ensures
        ({
            let l = lowered::place_c(d, cx, st, place);
            let r = lowered::expr_c(d, cx, l.st, value);
            lowered::step_c(d, cx, st, HStmt::Assign { op, place, value }).text == l.text + (" "@
                + operators::assign_text(
                op,
            ) + " "@) + r.text
        }),
{
    reveal(lowered::place_c);
    reveal(lowered::expr_c);
    let l = lowered::place_c(d, cx, st, place);
    let r = lowered::expr_c(d, cx, l.st, value);
    let a = operators::assign_text(op);
    assert(l.text + " "@ + a + " "@ + r.text =~= l.text + (" "@ + a + " "@) + r.text);
}

/// In an expansion a declaration sets the tagged local, which is declared at its head.
pub proof fn law_inline_declaration_sets_its_local(
    d: nat,
    cx: Cx,
    st: St,
    id: LocalId,
    init: HExpr,
)
    ensures
        ({
            let text = lowered::inline_stmt_c(d, cx, st, HStmt::Let { local: id, init }).text;
            let name = "_il_"@ + text::decimal(id.0 as int) + "_"@ + cx.tag->0;
            let v = lowered::expr_c(d, cx, st, init).text;
            let plain = name + " = "@ + v + "; "@;
            match cx.f.locals@[id.0 as int].ty {
                HType::Heap { inner } => if *inner is Vec || init.kind is HeapAlloc {
                    text::begins(text, plain)
                } else if !(init.ty is Heap) && !(init.ty is OwnPtr) && !(init.kind is Local) {
                    text::begins(
                        text,
                        name + " = ("@ + ctypes::ty_c(cx.sym, *inner) + "*)malloc(sizeof("@
                            + ctypes::ty_c(
                            cx.sym,
                            *inner,
                        ) + ")); *"@ + name + " = ("@ + v + "); "@,
                    )
                } else {
                    true
                },
                _ => text::begins(text, plain),
            }
        }),
{
    reveal(lowered::inline_stmt_c);
    reveal(lowered::place_c);
    reveal(lowered::expr_c);
    let text = lowered::inline_stmt_c(d, cx, st, HStmt::Let { local: id, init }).text;
    let name = ctypes::inline_local_c(id, cx.tag->0);
    let v = lowered::expr_c(d, cx, st, init);
    let plain = name + " = "@ + v.text + "; "@;
    let m = lowered::cleared_c(cx.sym, init.ty, lowered::place_c(d, cx, v.st, init).text);
    assert((plain + m + " "@).take(plain.len() as int) =~= plain);
    assert(plain.take(plain.len() as int) =~= plain);
    if let HType::Heap { inner } = cx.f.locals@[id.0 as int].ty {
        let c = ctypes::ty_c(cx.sym, *inner);
        let made = name + " = ("@ + c + "*)malloc(sizeof("@ + c + ")); *"@ + name + " = ("@ + v.text
            + "); "@;
        assert((made + m + " "@).take(made.len() as int) =~= made);
        assert(made.take(made.len() as int) =~= made);
    }
}

/// In an expansion an assignment leaves in its place what its operator makes of the two
/// values, through a pointer where the place holds one.
pub proof fn law_inline_assignment_sets_its_place(
    d: nat,
    cx: Cx,
    st: St,
    op: HAssignOp,
    place: HExpr,
    value: HExpr,
)
    requires
        !validity::clears_source(value),
        !drops::ty_owns(cx.sym, cx.owns, place.ty) || op != HAssignOp::Assign
            || validity::through_pointer(
            cx.f,
            place,
        ),
    ensures
        ({
            let l = lowered::place_c(d, cx, st, place);
            let r = lowered::expr_c(d, cx, l.st, value);
            let set = l.text + (" "@ + operators::assign_text(op) + " "@) + r.text + "; "@;
            let text = lowered::inline_stmt_c(d, cx, st, HStmt::Assign { op, place, value }).text;
            match place.kind {
                HExprKind::Local(id) => match cx.f.locals@[id.0 as int].ty {
                    HType::Heap { inner } => text == (if *inner is Vec { set } else { "*"@ + set }),
                    HType::Ref { mutable, .. } => text == (if mutable { "*"@ + set } else { set }),
                    _ => text == set,
                },
                _ => text == set,
            }
        }),
{
    reveal(lowered::inline_stmt_c);
    reveal(lowered::place_c);
    reveal(lowered::expr_c);
    let l = lowered::place_c(d, cx, st, place);
    let r = lowered::expr_c(d, cx, l.st, value);
    let a = operators::assign_text(op);
    assert(l.text + " "@ + a + " "@ + r.text + "; "@ =~= l.text + (" "@ + a + " "@) + r.text
        + "; "@);
}

/// A return gives the value of its expression; without one it just leaves. `propagate` leaves
/// the C function with its value.
pub proof fn law_return_gives_its_value(
    d: nat,
    cx: Cx,
    st: St,
    value: Option<HExpr>,
    heap_drops: Vec<LocalId>,
)
    ensures
        ({
            let text = lowered::stmt_c(d, cx, st, HStmt::Return { value, heap_drops }).text;
            match value {
                Some(e) => if e.ty is Unit {
                    exists|mid: Seq<char>|
                        text == #[trigger] (text::line_c(
                            cx.ind,
                            "(void)("@ + lowered::expr_c(d, cx, st, e).text + ");"@,
                        ) + mid + text::line_c(cx.ind, "return;"@))
                } else {
                    let ind = text::deeper_c(cx.ind);
                    let v = lowered::expr_c(d, cx.nested(), st, e).text;
                    exists|mid: Seq<char>|
                        text == #[trigger] (text::line_c(cx.ind, "{"@) + text::line_c(
                            ind,
                            ctypes::decl_c(cx.sym, e.ty, "__ret"@) + " = "@ + v + ";"@,
                        ) + mid + text::line_c(ind, "return __ret;"@) + text::line_c(cx.ind, "}"@))
                },
                None => exists|mid: Seq<char>|
                    text == #[trigger] (mid + text::line_c(cx.ind, "return;"@)),
            }
        }),
        lowered::stmt_c(d, cx, st, HStmt::Propagate { value }).text == text::line_c(
            cx.ind,
            match value {
                Some(e) => "return "@ + lowered::expr_c(d, cx, st, e).text + ";"@,
                None => "return;"@,
            },
        ),
{
    reveal(lowered::stmt_c);
    reveal(lowered::return_c);
    reveal(lowered::expr_c);
    reveal(lowered::move_out_c);
    let text = lowered::return_c(d, cx, st, value, heap_drops@).text;
    assert(lowered::stmt_c(d, cx, st, HStmt::Return { value, heap_drops }).text == text);
    let n = heap_drops@.len();
    let here = frames::return_drops_text(cx.sym, cx.owns, cx.f, cx.ind, heap_drops@, n);
    match value {
        Some(e) => if e.ty is Unit {
            assert(text == text::line_c(cx.ind, "(void)("@ + lowered::expr_c(d, cx, st, e).text
                + ");"@) + here
                + text::line_c(cx.ind, "return;"@));
        } else {
            let cx2 = cx.nested();
            let o = lowered::expr_c(d, cx2, st, e);
            let m = lowered::move_out_c(d, cx2, o.st, e).text;
            let drops = frames::return_drops_text(cx.sym, cx.owns, cx.f, cx2.ind, heap_drops@, n);
            let a = text::line_c(cx.ind, "{"@) + text::line_c(
                cx2.ind,
                ctypes::decl_c(cx.sym, e.ty, "__ret"@) + " = "@ + o.text + ";"@,
            );
            let r = text::line_c(cx2.ind, "return __ret;"@);
            let z = text::line_c(cx.ind, "}"@);
            assert(a + m + drops + r + z =~= a + (m + drops) + r + z);
            assert(text == a + (m + drops) + r + z);
        },
        None => {
            assert(text == here + text::line_c(cx.ind, "return;"@));
        },
    }
}

/// A loop over elements visits all of them in their order: those of a fixed array, of a slice
/// behind `ptr` or of a vector behind `data`, up to their number. The source is computed once.
/// The variable is a pointer to the element or a copy of it.
pub proof fn law_for_each_visits_the_elements(
    d: nat,
    cx: Cx,
    st: St,
    var: LocalId,
    src: HExpr,
    body: HBlock,
)
    requires
        src.ty is Array || src.ty is Slice || src.ty is Vec,
    ensures
        ({
            let li = cx.f.locals@[var.0 as int];
            let name = numbered(cx.f, var);
            let o = lowered::expr_c(d, cx, st, src);
            let ind2 = text::deeper_c(cx.ind);
            let ind3 = text::deeper_c(ind2);
            let staged = text::line_c(ind2, ctypes::ty_c(cx.sym, src.ty) + " __src = "@ + o.text
                + ";"@);
            let (keeps, count, elems) = match src.ty {
                HType::Array { len, .. } => (""@, "(maka_int)"@ + text::decimal(len as int),
                    o.text),
                HType::Slice { .. } => (staged, "__src.len"@, "__src.ptr"@),
                _ => (staged, "__src.len"@, "__src.data"@),
            };
            let head = text::line_c(
                ind2,
                "for (maka_int __i = 0; __i < "@ + count + "; __i += 1) {"@,
            );
            let text = lowered::for_each_c(d, cx, st, HStmt::ForEach { var, src, body }).text;
            let cx3 = cx.nested().nested();
            let close = text::line_c(ind2, "}"@) + text::line_c(cx.ind, "}"@);
            if lowered::can_alias(cx, var, src, body) {
                let inner = St { aliased: o.st.aliased.insert(var.0), ..o.st };
                text == text::line_c(cx.ind, "{"@) + keeps + head + text::line_c(
                    ind3,
                    ctypes::ty_c(cx.sym, li.ty) + "* "@ + name + " = &("@ + elems + "[__i]);"@,
                ) + lowered::block_c(d, cx3, inner, body).text + close
            } else {
                text == text::line_c(cx.ind, "{"@) + keeps + text::line_c(
                    ind2,
                    ctypes::ty_c(cx.sym, li.ty) + " "@ + name + " = {0};"@,
                ) + head + text::line_c(ind3, name + " = "@ + elems + "[__i];"@) + lowered::block_c(
                    d,
                    cx3,
                    o.st,
                    body,
                ).text + close
            }
        }),
        lowered::stmt_c(d, cx, st, HStmt::ForEach { var, src, body }) == lowered::for_each_c(
            d,
            cx,
            st,
            HStmt::ForEach { var, src, body },
        ),
{
    reveal(lowered::stmt_c);
    reveal(lowered::for_each_c);
    reveal(lowered::expr_c);
}

/// What a move leaves behind is null, or for a vector one without elements, memory or room.
pub proof fn law_cleared_places_hold_nothing(sym: SymTab, t: HType, place: Seq<char>)
    ensures
        match t {
            HType::Heap { inner } => if *inner is Vec {
                exists|r: Seq<char>| lowered::cleared_c(sym, t, place) == #[trigger] (place + " = "@
                    + r)
                    && text::has_part(r, ".data = NULL"@) && text::has_part(r, ".len = 0"@)
                        && text::has_part(
                    r,
                    ".cap = 0"@,
                )
            } else {
                lowered::cleared_c(sym, t, place) == place + " = "@ + "NULL;"@
            },
            _ => lowered::cleared_c(sym, t, place) == place + " = "@ + "NULL;"@,
        },
{
    reveal_strlit(" = NULL;");
    reveal_strlit(" = ");
    reveal_strlit("NULL;");
    reveal_strlit(" = (");
    reveal_strlit("(");
    reveal_strlit("){ .data = NULL, .len = 0, .cap = 0 };");
    reveal_strlit(".data = NULL");
    reveal_strlit(".len = 0");
    reveal_strlit(".cap = 0");
    assert(place + " = NULL;"@ =~= place + " = "@ + "NULL;"@);
    if let HType::Heap { inner } = t {
        if *inner is Vec {
            let c = ctypes::ty_c(sym, *inner);
            let z = "){ .data = NULL, .len = 0, .cap = 0 };"@;
            let r = "("@ + c + z;
            assert(lowered::cleared_c(sym, t, place) =~= place + " = "@ + r);
            assert(z.subrange(3, 3 + ".data = NULL"@.len() as int) =~= ".data = NULL"@);
            assert(z.subrange(17, 17 + ".len = 0"@.len() as int) =~= ".len = 0"@);
            assert(z.subrange(27, 27 + ".cap = 0"@.len() as int) =~= ".cap = 0"@);
            text::lemma_part_after("("@ + c, z, ".data = NULL"@);
            text::lemma_part_after("("@ + c, z, ".len = 0"@);
            text::lemma_part_after("("@ + c, z, ".cap = 0"@);
        }
    }
}

/// What a block clears and releases: every listed local, in the listed order, and no other.
pub proof fn law_block_ends_list_their_locals(
    sym: SymTab,
    owns: Set<Seq<char>>,
    f: HFunc,
    ind: Seq<char>,
    tag: Seq<char>,
    ids: Seq<LocalId>,
    kept: Seq<LocalId>,
    n: nat,
)
    requires
        n < ids.len(),
    ensures
        ({
            let id = ids[n as int];
            let li = f.locals@[id.0 as int];
            let name = numbered(f, id);
            let k = n + 1;
            &&& frames::collapse_text(f, ind, ids, k) == frames::collapse_text(f, ind, ids, n)
                + text::line_c(
                ind,
                name + " = NULL; /* collapse "@ + li.name@ + " */"@,
            )
            &&& frames::release_text(sym, owns, f, ind, ids, k) == frames::release_text(sym, owns,
                f, ind, ids, n)
                + text::line_c(ind, "/* drop heap "@ + li.name@ + " */"@) + drops::field_drop_c(
                sym,
                owns,
                ind,
                name,
                li.ty,
                0,
            )
            &&& frames::return_drops_text(sym, owns, f, ind, ids, k) == frames::return_drops_text(
                sym,
                owns,
                f,
                ind,
                ids,
                n,
            ) + text::line_c(ind, "/* drop on return */"@) + drops::field_drop_c(sym, owns, ind,
                name, li.ty, 0)
            &&& frames::spliced_clears(tag, ids, k) == frames::spliced_clears(tag, ids, n)
                + (ctypes::inline_local_c(id, tag)
                + " = NULL; "@)
            &&& kept.contains(id) ==> frames::spliced_drops(sym, owns, ind, f, tag, ids, kept, k)
                == frames::spliced_drops(sym, owns, ind, f, tag, ids, kept, n)
            &&& !kept.contains(id) ==> frames::spliced_drops(sym, owns, ind, f, tag, ids, kept, k)
                == frames::spliced_drops(sym, owns, ind, f, tag, ids, kept, n)
                    + frames::spliced_drop(
                sym,
                owns,
                ind,
                f,
                tag,
                id,
            )
        }),
        frames::collapse_text(f, ind, ids, 0) == ""@,
        frames::release_text(sym, owns, f, ind, ids, 0) == ""@,
        frames::return_drops_text(sym, owns, f, ind, ids, 0) == ""@,
        frames::spliced_clears(tag, ids, 0) == ""@,
        frames::spliced_drops(sym, owns, ind, f, tag, ids, kept, 0) == ""@,
{
    reveal_strlit("");
    let k = n + 1;
    assert((k - 1) as nat == n);
    let b = frames::spliced_drops(sym, owns, ind, f, tag, ids, kept, n);
    assert(b + ""@ =~= b);
}

/// A block of a function is its statements, then what it clears, then what it releases.
pub proof fn law_block_releases_last(d: nat, cx: Cx, st: St, b: HBlock)
    ensures
        lowered::block_c(d, cx, st, b).text == lowered::stmts_c(d, cx, st, b.stmts,
            b.stmts@.len()).text
            + frames::collapse_text(cx.f, cx.ind, b.ptr_nulls@, b.ptr_nulls@.len())
                + frames::release_text(
            cx.sym,
            cx.owns,
            cx.f,
            cx.ind,
            b.heap_to_free@,
            b.heap_to_free@.len(),
        ),
        lowered::block_c(d, cx, st, b).st == lowered::stmts_c(d, cx, st, b.stmts,
            b.stmts@.len()).st,
        frames::spliced_end(cx.sym, cx.owns, cx.ind, cx.f, cx.tag->0, b) == frames::spliced_clears(
            cx.tag->0,
            b.ptr_nulls@,
            b.ptr_nulls@.len(),
        ) + frames::spliced_drops(
            cx.sym,
            cx.owns,
            cx.ind,
            cx.f,
            cx.tag->0,
            b.heap_to_free@,
            Seq::empty(),
            b.heap_to_free@.len(),
        ),
{
}

/// In an expansion a local that owns a single piece of memory is freed; one that owns more is
/// released as elsewhere.
pub proof fn law_spliced_release(
    sym: SymTab,
    owns: Set<Seq<char>>,
    ind: Seq<char>,
    g: HFunc,
    tag: Seq<char>,
    id: LocalId,
)
    ensures
        ({
            let ty = g.locals@[id.0 as int].ty;
            let name = ctypes::inline_local_c(id, tag);
            let text = frames::spliced_drop(sym, owns, ind, g, tag, id);
            match ty {
                HType::OwnPtr { inner, .. } => text == (if drops::ty_owns(sym, owns, *inner) {
                    drops::field_drop_c(sym, owns, ind, name, ty, 0)
                } else {
                    "free("@ + name + "); "@
                }),
                HType::Heap { inner } => match *inner {
                    HType::Vec { elem } => text == (if drops::ty_owns(sym, owns, *elem) {
                        drops::field_drop_c(sym, owns, ind, name, ty, 0)
                    } else {
                        "free("@ + name + ".data); "@
                    }),
                    _ => text == (if drops::ty_owns(sym, owns, *inner) {
                        drops::field_drop_c(sym, owns, ind, name, ty, 0)
                    } else {
                        "free("@ + name + "); "@
                    }),
                },
                _ => text == drops::field_drop_c(sym, owns, ind, name, ty, 0),
            }
        }),
{
}

} // verus!
