//! What keeps the expansions of inline functions apart.
use vstd::prelude::*;

use crate::context::{Cx, St};
use crate::ctypes;
use crate::frames;
use crate::hir::{FuncId, HExpr, HFunc, HType, LocalId, SymTab};
use crate::lowered;
use crate::lowering_laws;
use crate::text;

verus! {

/// The text of an expansion: the declarations of the parameters, the result and the other
/// locals, the body, the label that ends it, and what follows the label. What the expansion
/// declares itself stands outside `args` and `body`.
pub open spec fn expansion_frame(
    sym: SymTab,
    owns: Set<Seq<char>>,
    ind: Seq<char>,
    g: HFunc,
    tag: Seq<char>,
    ty: HType,
    args: Seq<Seq<char>>,
    body: Seq<char>,
) -> Seq<char> {
    let ids = g.body.heap_to_free@;
    "__extension__ ({ "@ + frames::spliced_params(sym, g, tag, args, g.params@.len()) + (if ty is Unit {
        ""@
    } else {
        ctypes::ty_c(sym, ty) + " __r_"@ + tag + " = {0}; "@
    }) + frames::spliced_locals(sym, g, tag, g.locals@.len()) + "do { "@ + body + "} while (0); end_"@ + tag
        + ": ; "@ + frames::spliced_drops(
        sym,
        owns,
        ind,
        g,
        tag,
        ids,
        Seq::empty(),
        ids.len(),
    ) + (if ty is Unit {
        "MAKA_UNIT; "@
    } else {
        "__r_"@ + tag + "; "@
    }) + "})"@
}

/// The label, the result variable and the locals that an expansion declares.
pub open spec fn expansion_names(g: HFunc, tag: Seq<char>) -> Set<Seq<char>> {
    Set::new(
        |name: Seq<char>|
            name == "end_"@ + tag || name == "__r_"@ + tag || (exists|i: int|
                0 <= i < g.params@.len() && name == ctypes::inline_local_c(#[trigger] g.params@[i], tag))
                || (exists|i: int|
                0 <= i < g.locals@.len() && name == #[trigger] ctypes::inline_local_c(
                    LocalId(i as u32),
                    tag,
                )),
    )
}

proof fn lemma_after_prefix(p: Seq<char>, s: Seq<char>, t: Seq<char>)
    requires
        p + s == p + t,
    ensures
        s == t,
{
    assert((p + s).skip(p.len() as int) =~= s);
    assert((p + t).skip(p.len() as int) =~= t);
}

proof fn lemma_names_of_tags(
    g: HFunc,
    h: HFunc,
    s: Seq<char>,
    t: Seq<char>,
    a: Seq<char>,
    b: Seq<char>,
)
    requires
        s != t,
        expansion_names(g, s).contains(a),
        expansion_names(h, t).contains(b),
    ensures
        a != b,
{
    if a == b {
        reveal_strlit("end_");
        reveal_strlit("__r_");
        reveal_strlit("_il_");
        if a == "end_"@ + s {
            assert(a[0] == 'e');
            assert(b == "end_"@ + t);
            lemma_after_prefix("end_"@, s, t);
        } else if a == "__r_"@ + s {
            assert(a[0] == '_' && a[1] == '_');
            assert(b == "__r_"@ + t);
            lemma_after_prefix("__r_"@, s, t);
        } else {
            assert(a[0] == '_' && a[1] == 'i');
            assert(exists|i: LocalId| a == #[trigger] ctypes::inline_local_c(i, s));
            let i = choose|i: LocalId| a == #[trigger] ctypes::inline_local_c(i, s);
            assert(exists|j: LocalId| b == #[trigger] ctypes::inline_local_c(j, t));
            let j = choose|j: LocalId| b == #[trigger] ctypes::inline_local_c(j, t);
            ctypes::law_inline_names_differ(i, j, s, t);
        }
    }
}

/// Two expansions, of the same function or of different ones, wherever they stand and also
/// where one stands within the other, declare no common label or local. An expansion and
/// whatever is lowered within it or after it differ in `seq`; the numbers in the tags wrap
/// around at 2^32.
pub proof fn law_expansions_share_no_name(
    d1: nat,
    cx1: Cx,
    st1: St,
    callee1: FuncId,
    args1: Vec<HExpr>,
    ty1: HType,
    at1: int,
    d2: nat,
    cx2: Cx,
    st2: St,
    callee2: FuncId,
    args2: Vec<HExpr>,
    ty2: HType,
    at2: int,
)
    requires
        d1 > 0 && cx1.sym.func_from(callee1, 0) == Some(at1),
        d2 > 0 && cx2.sym.func_from(callee2, 0) == Some(at2),
        st1.seq != st2.seq,
        st1.seq + 1 < 0x1_0000_0000 && st2.seq + 1 < 0x1_0000_0000,
    ensures
        ({
            let (g1, g2) = (cx1.sym.funcs@[at1], cx2.sym.funcs@[at2]);
            let tag1 = lowered::expansion_tag(g1, st1.seq + 1);
            let tag2 = lowered::expansion_tag(g2, st2.seq + 1);
            let text1 = lowered::expansion_c(d1, cx1, st1, callee1, args1, ty1).text;
            let text2 = lowered::expansion_c(d2, cx2, st2, callee2, args2, ty2).text;
            &&& exists|v1: Seq<Seq<char>>, b1: Seq<char>|
                text1 == #[trigger] expansion_frame(
                    cx1.sym,
                    cx1.owns,
                    cx1.ind,
                    g1,
                    tag1,
                    ty1,
                    v1,
                    b1,
                )
            &&& exists|v2: Seq<Seq<char>>, b2: Seq<char>|
                text2 == #[trigger] expansion_frame(
                    cx2.sym,
                    cx2.owns,
                    cx2.ind,
                    g2,
                    tag2,
                    ty2,
                    v2,
                    b2,
                )
            &&& expansion_names(g1, tag1).disjoint(expansion_names(g2, tag2))
        }),
{
    let (g1, g2) = (cx1.sym.funcs@[at1], cx2.sym.funcs@[at2]);
    let s = lowered::expansion_tag(g1, st1.seq + 1);
    let t = lowered::expansion_tag(g2, st2.seq + 1);
    lemma_expansion_frame(d1, cx1, st1, callee1, args1, ty1, at1);
    lemma_expansion_frame(d2, cx2, st2, callee2, args2, ty2, at2);
    if s == t {
        lowering_laws::law_expansion_tags_differ(g1, g2, st1.seq + 1, st2.seq + 1);
    }
    assert forall|a: Seq<char>|
        expansion_names(
            g1,
            s,
        ).contains(a) implies !#[trigger] expansion_names(g2, t).contains(a) by {
        if expansion_names(g2, t).contains(a) {
            lemma_names_of_tags(g1, g2, s, t, a, a);
        }
    }
}

proof fn lemma_expansion_frame(
    d: nat,
    cx: Cx,
    st: St,
    callee: FuncId,
    args: Vec<HExpr>,
    ty: HType,
    at: int,
)
    requires
        d > 0 && cx.sym.func_from(callee, 0) == Some(at),
    ensures
        ({
            let g = cx.sym.funcs@[at];
            exists|v: Seq<Seq<char>>, b: Seq<char>|
                lowered::expansion_c(d, cx, st, callee, args, ty).text == #[trigger] expansion_frame(
                    cx.sym,
                    cx.owns,
                    cx.ind,
                    g,
                    lowered::expansion_tag(g, st.seq + 1),
                    ty,
                    v,
                    b,
                )
        }),
{
    reveal(lowered::expansion_c);
    let g = cx.sym.funcs@[at];
    let st2 = St { seq: st.seq + 1, ..st };
    let tag = lowered::expansion_tag(g, st2.seq);
    let a = lowered::exprs_c(d, cx, st2, args, 0, args@.len());
    let b = lowered::inline_stmts_c(
        (d - 1) as nat,
        cx.inside(g, tag, !(ty is Unit)),
        a.st,
        g.body.stmts,
        g.body.stmts@.len(),
    );
    assert(lowered::expansion_c(d, cx, st, callee, args, ty).text == expansion_frame(
        cx.sym,
        cx.owns,
        cx.ind,
        g,
        tag,
        ty,
        a.texts,
        b.text,
    ));
}

proof fn lemma_param_declared(
    sym: SymTab,
    g: HFunc,
    tag: Seq<char>,
    args: Seq<Seq<char>>,
    n: nat,
    i: int,
)
    requires
        0 <= i < n <= g.params@.len(),
    ensures
        text::has_part(
            frames::spliced_params(sym, g, tag, args, n),
            ctypes::ty_c(
                sym,
                g.locals@[g.params@[i].0 as int].ty,
            ) + " "@ + ctypes::inline_local_c(g.params@[i], tag)
                + " = "@,
        ),
    decreases n,
{
    let id = g.params@[n - 1];
    let before = frames::spliced_params(sym, g, tag, args, (n - 1) as nat);
    let decl = ctypes::ty_c(sym, g.locals@[id.0 as int].ty) + " "@ + ctypes::inline_local_c(id, tag) + " = "@;
    let value = if n - 1 < args.len() { args[n - 1] } else { "0"@ };
    assert(frames::spliced_params(sym, g, tag, args, n) =~= (before + decl) + (value + "; "@));
    if i == n - 1 {
        text::lemma_part_last(before, decl);
        text::lemma_part_kept(before + decl, value + "; "@, decl);
    } else {
        lemma_param_declared(sym, g, tag, args, (n - 1) as nat, i);
        let first = ctypes::ty_c(sym, g.locals@[g.params@[i].0 as int].ty) + " "@ + ctypes::inline_local_c(
            g.params@[i],
            tag,
        ) + " = "@;
        text::lemma_part_kept(before, decl, first);
        text::lemma_part_kept(before + decl, value + "; "@, first);
    }
}

proof fn lemma_other_declared(sym: SymTab, g: HFunc, tag: Seq<char>, n: nat, i: int)
    requires
        0 <= i < n <= g.locals@.len(),
        !frames::is_param(g, LocalId(i as u32)),
    ensures
        text::has_part(
            frames::spliced_locals(sym, g, tag, n),
            ctypes::decl_c(sym, g.locals@[i].ty, ctypes::inline_local_c(LocalId(i as u32), tag)) + " = {0}; "@,
        ),
    decreases n,
{
    let before = frames::spliced_locals(sym, g, tag, (n - 1) as nat);
    let id = LocalId((n - 1) as u32);
    let last = ctypes::decl_c(sym, g.locals@[n - 1].ty, ctypes::inline_local_c(id, tag)) + " = {0}; "@;
    if i == n - 1 {
        text::lemma_part_last(before, last);
    } else {
        lemma_other_declared(sym, g, tag, (n - 1) as nat, i);
        text::lemma_part_kept(
            before,
            last,
            ctypes::decl_c(sym, g.locals@[i].ty, ctypes::inline_local_c(LocalId(i as u32), tag)) + " = {0}; "@,
        );
    }
}

/// An expansion declares every local of the inline function under its tagged name, the
/// parameters with their arguments, before the body, and its label behind the body.
pub proof fn law_expansion_declares_its_names(
    sym: SymTab,
    owns: Set<Seq<char>>,
    ind: Seq<char>,
    g: HFunc,
    tag: Seq<char>,
    ty: HType,
    args: Seq<Seq<char>>,
    body: Seq<char>,
)
    ensures
        ({
            let whole = expansion_frame(sym, owns, ind, g, tag, ty, args, body);
            exists|head: Seq<char>, tail: Seq<char>|
                {
                    &&& whole == #[trigger] (head + ("do { "@ + body + "} while (0); "@) + tail)
                    &&& text::has_part(tail, "end_"@ + tag + ": ; "@)
                    &&& !(ty is Unit) ==> text::has_part(head, " __r_"@ + tag + " = {0}; "@)
                    &&& forall|i: int|
                        0 <= i < g.params@.len() ==> text::has_part(
                            head,
                            ctypes::ty_c(sym, g.locals@[(#[trigger] g.params@[i]).0 as int].ty) + " "@
                                + ctypes::inline_local_c(g.params@[i], tag) + " = "@,
                        )
                    &&& forall|i: int|
                        0 <= i < g.locals@.len() && !frames::is_param(g, LocalId(i as u32)) ==> text::has_part(
                            head,
                            ctypes::decl_c(
                                sym,
                                (#[trigger] g.locals@[i]).ty,
                                ctypes::inline_local_c(LocalId(i as u32), tag),
                            ) + " = {0}; "@,
                        )
                }
        }),
{
    let whole = expansion_frame(sym, owns, ind, g, tag, ty, args, body);
    let start = "__extension__ ({ "@;
    let params = frames::spliced_params(sym, g, tag, args, g.params@.len());
    let result = if ty is Unit { ""@ } else { ctypes::ty_c(sym, ty) + " __r_"@ + tag + " = {0}; "@ };
    let others = frames::spliced_locals(sym, g, tag, g.locals@.len());
    let ids = g.body.heap_to_free@;
    let frees = frames::spliced_drops(sym, owns, ind, g, tag, ids, Seq::empty(), ids.len());
    let last = if ty is Unit { "MAKA_UNIT; "@ } else { "__r_"@ + tag + "; "@ };
    let head = start + params + result + others;
    let label = "end_"@ + tag + ": ; "@;
    let tail = label + (frees + last + "})"@);
    reveal_strlit("} while (0); end_");
    reveal_strlit("} while (0); ");
    reveal_strlit("end_");
    assert("} while (0); end_"@ =~= "} while (0); "@ + "end_"@);
    lemma_frame_split(head, body, tag, frees, last);
    assert(whole == head + ("do { "@ + body + "} while (0); "@) + tail);
    assert(Seq::<char>::empty() + label =~= label);
    text::lemma_part_last(Seq::empty(), label);
    text::lemma_part_kept(label, frees + last + "})"@, label);
    if !(ty is Unit) {
        let decl = " __r_"@ + tag + " = {0}; "@;
        assert(ctypes::ty_c(sym, ty) + decl =~= result);
        text::lemma_part_last(ctypes::ty_c(sym, ty), decl);
        text::lemma_part_after(start + params, result, decl);
        text::lemma_part_kept(start + params + result, others, decl);
    }
    assert forall|i: int| 0 <= i < g.params@.len() implies text::has_part(
        head,
        ctypes::ty_c(sym, g.locals@[(#[trigger] g.params@[i]).0 as int].ty) + " "@ + ctypes::inline_local_c(
            g.params@[i],
            tag,
        ) + " = "@,
    ) by {
        let decl = ctypes::ty_c(sym, g.locals@[g.params@[i].0 as int].ty) + " "@ + ctypes::inline_local_c(
            g.params@[i],
            tag,
        ) + " = "@;
        lemma_param_declared(sym, g, tag, args, g.params@.len(), i);
        text::lemma_part_after(start, params, decl);
        text::lemma_part_kept(start + params, result, decl);
        text::lemma_part_kept(start + params + result, others, decl);
    }
    assert forall|i: int|
        0 <= i < g.locals@.len() && !frames::is_param(g, LocalId(i as u32)) implies text::has_part(
        head,
        ctypes::decl_c(sym, (#[trigger] g.locals@[i]).ty, ctypes::inline_local_c(LocalId(i as u32), tag))
            + " = {0}; "@,
    ) by {
        lemma_other_declared(sym, g, tag, g.locals@.len(), i);
        text::lemma_part_after(
            start + params + result,
            others,
            ctypes::decl_c(sym, g.locals@[i].ty, ctypes::inline_local_c(LocalId(i as u32), tag)) + " = {0}; "@,
        );
    }
}

proof fn lemma_frame_split(
    head: Seq<char>,
    body: Seq<char>,
    tag: Seq<char>,
    frees: Seq<char>,
    last: Seq<char>,
)
    ensures
        head + "do { "@ + body + ("} while (0); "@ + "end_"@) + tag + ": ; "@ + frees + last + "})"@
            == head + ("do { "@ + body + "} while (0); "@) + ("end_"@ + tag + ": ; "@ + (frees + last
            + "})"@)),
{
    assert(head + "do { "@ + body + ("} while (0); "@ + "end_"@) + tag + ": ; "@ + frees + last
        + "})"@ =~= head + ("do { "@ + body + "} while (0); "@) + ("end_"@ + tag + ": ; "@ + (frees
        + last + "})"@)));
}

} // verus!
