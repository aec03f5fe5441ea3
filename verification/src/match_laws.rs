//! Which arm of a match runs.
use vstd::prelude::*;

use crate::context::{Cx, St};
use crate::control_laws::Step;
use crate::ctypes;
use crate::definitions;
use crate::hir::{
    EnumId, EnumInfo, HArmKind, HExpr, HExprKind, HFunc, HMatchArm, HType, LocalId, SymTab,
    VariantInfo,
};
use crate::lowered;
use crate::operators;
use crate::patterns;
use crate::pieces;
use crate::pieces::Val;
use crate::text;
use crate::value_laws;

verus! {

/// How an enum is laid out in C: as a number where no variant carries values, else as a
/// struct with the tag as a member. The switch of a match and the tests of its arms read the
/// tag there.
pub proof fn law_tag_is_read_where_it_is_laid_out(sym: SymTab, i: int)
    requires
        0 <= i < sym.enums@.len(),
    ensures
        ({
            let e = sym.enums@[i];
            let name = text::ident(e.name@);
            let declared = definitions::enum_forwards(sym, (i + 1) as nat);
            let before = definitions::enum_forwards(sym, i as nat);
            if value_laws::some_values(e) {
                &&& patterns::tag_place(e) == pieces::dot(pieces::a_name("__s"@), "tag"@).text
                &&& text::has_part(definitions::enum_def(sym, e), "struct "@ + name
                    + " {\n    maka_int tag;\n"@)
                &&& declared == before + text::line_c(
                    ""@,
                    "typedef struct "@ + name + " "@ + name + ";"@,
                ) + definitions::variant_decls(e, e.variants@.len())
            } else {
                &&& patterns::tag_place(e) == pieces::a_name("__s"@).text
                &&& declared == before + text::line_c(""@, "typedef maka_int "@ + name + ";"@)
                    + definitions::variant_decls(e, e.variants@.len())
            }
        }),
{
    let e = sym.enums@[i];
    let name = text::ident(e.name@);
    lemma_layout_words(e);
    lemma_simple(e);
    if value_laws::some_values(e) {
        let first = definitions::payload_structs(sym, e, e.variants@.len());
        let part = "struct "@ + name + " {\n    maka_int tag;\n"@;
        let rest = text::line_c(text::deeper_c(""@), "union {"@) + definitions::payload_members(e,
            e.variants@.len()) + text::line_c(
            text::deeper_c(""@),
            "} payload;"@,
        ) + text::line_c(""@, "};"@);
        lemma_struct_head(name);
        assert(definitions::enum_def(sym, e) =~= first + part + rest);
        text::lemma_part_last(first, part);
        text::lemma_part_kept(first + part, rest, part);
    }
}

proof fn lemma_layout_words(e: EnumInfo)
    ensures
        "__s.tag"@ == pieces::dot(pieces::a_name("__s"@), "tag"@).text,
{
    reveal_strlit("__s.tag");
    reveal_strlit("__s");
    reveal_strlit("tag");
    reveal_strlit(".");
    assert("__s.tag"@ =~= pieces::dot(pieces::a_name("__s"@), "tag"@).text);
}

proof fn lemma_simple(e: EnumInfo)
    ensures
        value_laws::some_values(e) == !e.simple(),
{
    if !e.simple() {
        let i = choose|i: int|
            0 <= i < e.variants@.len() && (#[trigger] e.variants@[i]).fields@.len() != 0;
        assert(e.variants@[i].fields@.len() > 0);
    }
}

proof fn lemma_struct_head(name: Seq<char>)
    ensures
        text::line_c(""@, "struct "@ + name + " {"@) + text::line_c(text::deeper_c(""@),
            "maka_int tag;"@)
            == "struct "@ + name + " {\n    maka_int tag;\n"@,
{
    reveal_strlit("");
    reveal_strlit("struct ");
    reveal_strlit(" {");
    reveal_strlit("\n");
    reveal_strlit("maka_int tag;");
    reveal_strlit(" {\n    maka_int tag;\n");
    reveal_strlit("    ");
    let a = text::line_c(""@, "struct "@ + name + " {"@);
    let b = text::line_c(text::deeper_c(""@), "maka_int tag;"@);
    assert(text::deeper_c(""@) =~= "    "@);
    assert(b =~= "    "@ + "maka_int tag;"@ + "\n"@);
    assert(a =~= "struct "@ + name + (" {"@ + "\n"@));
    assert(" {\n    maka_int tag;\n"@ =~= " {"@ + "\n"@ + ("    "@ + "maka_int tag;"@ + "\n"@));
    assert(a + b =~= "struct "@ + name + (" {"@ + "\n"@ + b));
}

/// A match becomes a switch exactly where the tag alone decides: the scrutinee is of the enum,
/// no arm has a guard, and every arm is a variant of that enum without literals to compare, or
/// the one that takes the rest.
pub proof fn law_switch_where_the_tag_decides(ty: HType, arms: Seq<HMatchArm>, id: EnumId)
    ensures
        patterns::switch_enum(ty, arms) == Some(id) <==> {
            &&& ty == HType::Enum(id)
            &&& forall|i: int|
                #![trigger arms[i]]
                0 <= i < arms.len() ==> arms[i].guard is None && match arms[i].kind {
                    HArmKind::Variant { enum_id, lit_checks, .. } => enum_id == id && forall|k: int|
                        0 <= k < lit_checks@.len() ==> (#[trigger] lit_checks@[k]) is None,
                    HArmKind::Else => forall|j: int|
                        0 <= j < arms.len() && i != j ==> !((#[trigger] arms[j]).kind is Else),
                    _ => false,
                }
        },
{
    if ty == HType::Enum(id) {
        if patterns::switch_enum(ty, arms) == Some(id) {
            assert forall|i: int|
                #![trigger arms[i]]
                0 <= i < arms.len() implies arms[i].guard is None && match arms[i].kind {
                HArmKind::Variant { enum_id, lit_checks, .. } => enum_id == id && forall|k: int|
                    0 <= k < lit_checks@.len() ==> (#[trigger] lit_checks@[k]) is None,
                HArmKind::Else => forall|j: int|
                    0 <= j < arms.len() && i != j ==> !((#[trigger] arms[j]).kind is Else),
                _ => false,
            } by {
                assert(patterns::switch_arm(arms[i], id));
                if arms[i].kind is Else {
                    assert forall|j: int| 0 <= j < arms.len() && i != j implies !((
                    #[trigger] arms[j]).kind is Else) by {
                        if j < i {
                            assert(!(arms[j].kind is Else && arms[i].kind is Else));
                        } else {
                            assert(!(arms[i].kind is Else && arms[j].kind is Else));
                        }
                    }
                }
            }
        }
    }
}

/// An arm of a switch: the tag that it takes, or none where it takes the rest, and what it
/// does.
#[verifier::reject_recursive_types(S)]
pub struct Case<S> {
    pub tag: Option<int>,
    pub step: Step<S>,
}

/// `case 1: { .. } break;` or `default: { .. } break;`
pub open spec fn case_shown<S>(c: Case<S>) -> Seq<char> {
    (match c.tag {
        Some(t) => "case "@ + text::decimal(t) + ": "@,
        None => "default: "@,
    }) + "{ "@ + c.step.text + "} break; "@
}

/// Cases one after the other.
pub open spec fn cases_shown<S>(v: Seq<Case<S>>, n: nat) -> Seq<char>
    decreases n,
{
    if n == 0 || n > v.len() {
        Seq::empty()
    } else {
        cases_shown(v, (n - 1) as nat) + case_shown(v[n - 1])
    }
}

/// The case that C takes for a tag: the one with that tag, else the default.
pub open spec fn taken<S>(v: Seq<Case<S>>, t: int, i: int) -> bool {
    &&& 0 <= i < v.len()
    &&& v[i].tag == Some(t) || (v[i].tag is None && forall|j: int|
        0 <= j < v.len() ==> (#[trigger] v[j]).tag != Some(t))
}

/// The arm of a match that is meant for a tag.
pub open spec fn meant(sym: SymTab, arms: Seq<HMatchArm>, t: int, i: int) -> bool {
    &&& 0 <= i < arms.len()
    &&& (match arms[i].kind {
        HArmKind::Variant { enum_id, variant,
            .. } => sym.enums@[enum_id.0 as int].variants@[variant as int].tag
            == t,
        _ => forall|j: int|
            0 <= j < arms.len() ==> match (#[trigger] arms[j]).kind {
                HArmKind::Variant { enum_id, variant,
                    .. } => sym.enums@[enum_id.0 as int].variants@[variant as int].tag
                    != t,
                _ => true,
            },
    })
}

/// The text of an arm: what it binds, its statements and its value.
pub open spec fn arm_text(d: nat, cx: Cx, st: St, a: HMatchArm, wanted: bool) -> Seq<char> {
    patterns::bindings_text(cx.sym, cx.f, cx.tag, a.kind) + patterns::scrutinee_text(
        cx.sym,
        cx.f,
        cx.tag,
        a.scrut_binding,
    ) + lowered::arm_body_c(d, cx, st, a, wanted).text
}

proof fn lemma_cases<S>(
    d: nat,
    cx: Cx,
    st: St,
    arms: Vec<HMatchArm>,
    wanted: bool,
    v: Seq<Case<S>>,
    n: nat,
)
    requires
        n <= arms@.len(),
        v.len() == arms@.len(),
        cases_stand_for(d, cx, st, arms, wanted, v),
        forall|i: int|
            0 <= i < arms@.len() ==> (#[trigger] arms@[i]).kind is Variant || arms@[i].kind is Else,
    ensures
        lowered::switch_arms_c(d, cx, st, arms, wanted, n).text == cases_shown(v, n),
    decreases n,
{
    reveal_strlit("");
    if n > 0 {
        lemma_cases(d, cx, st, arms, wanted, v, (n - 1) as nat);
        let a = arms@[n - 1];
        let before = lowered::switch_arms_c(d, cx, st, arms, wanted, (n - 1) as nat);
        assert(v[n - 1].step.text == arm_text(d, cx, before.st, a, wanted));
        lemma_case_text(
            before.text,
            cx,
            a.kind,
            patterns::bindings_text(cx.sym, cx.f, cx.tag, a.kind),
            patterns::scrutinee_text(cx.sym, cx.f, cx.tag, a.scrut_binding),
            lowered::arm_body_c(d, cx, before.st, a, wanted).text,
            v[n - 1],
        );
    } else {
        assert(lowered::switch_arms_c(d, cx, st, arms, wanted, 0).text =~= Seq::<char>::empty());
    }
}

proof fn lemma_case_text<S>(
    before: Seq<char>,
    cx: Cx,
    k: HArmKind,
    b: Seq<char>,
    s: Seq<char>,
    o: Seq<char>,
    c: Case<S>,
)
    requires
        k is Variant || k is Else,
        c.step.text == b + s + o,
        c.tag == (match k {
            HArmKind::Variant { enum_id, variant, .. } => Some(
                cx.sym.the_variant(enum_id, variant).tag as int,
            ),
            _ => None,
        }),
    ensures
        before + lowered::case_text(cx.sym, k) + b + s + o + "} break; "@ == before + case_shown(c),
{
    broadcast use pieces::lemma_put_together;

    lemma_case_words();
}

proof fn lemma_case_words()
    ensures
        ": { "@ == ": "@ + "{ "@,
        "default: { "@ == "default: "@ + "{ "@,
{
    reveal_strlit(": { ");
    reveal_strlit(": ");
    reveal_strlit("{ ");
    reveal_strlit("default: { ");
    reveal_strlit("default: ");
    assert(": { "@ =~= ": "@ + "{ "@);
    assert("default: { "@ =~= "default: "@ + "{ "@);
}


/// The cases have the tags of the arms, and their steps the texts of the arms, each lowered
/// in the state that those before it leave.
pub open spec fn cases_stand_for<S>(
    d: nat,
    cx: Cx,
    st: St,
    arms: Vec<HMatchArm>,
    wanted: bool,
    v: Seq<Case<S>>,
) -> bool {
    forall|i: int|
        #![trigger v[i]]
        0 <= i < v.len() ==> {
            &&& v[i].tag == (match arms@[i].kind {
                HArmKind::Variant { enum_id, variant, .. } => Some(
                    cx.sym.enums@[enum_id.0 as int].variants@[variant as int].tag as int,
                ),
                _ => None,
            })
            &&& v[i].step.text == arm_text(
                d,
                cx,
                lowered::switch_arms_c(d, cx, st, arms, wanted, i as nat).st,
                arms@[i],
                wanted,
            )
        }
}

/// The variable for the value of a match, where it has one.
pub open spec fn result_declared(sym: SymTab, t: HType) -> Seq<char> {
    if t is Unit { ""@ } else { ctypes::ty_c(sym, t) + " __r = {0}; "@ }
}

/// The value of a match.
pub open spec fn result_given(t: HType) -> Seq<char> {
    if t is Unit { "MAKA_UNIT; "@ } else { "__r; "@ }
}

/// A match on the tag alone: the scrutinee is computed once, and of its tag C takes the arm
/// that is meant for it.
pub proof fn law_switch_takes_the_arm_of_the_tag<S>(
    d: nat,
    cx: Cx,
    st: St,
    scrutinee: HExpr,
    arms: Vec<HMatchArm>,
    result_ty: HType,
    ty: HType,
    id: EnumId,
    v: Seq<Case<S>>,
)
    requires
        patterns::switch_enum(scrutinee.ty, arms@) == Some(id),
        v.len() == arms@.len(),
        cases_stand_for(
            d,
            cx,
            lowered::expr_c(d, cx, st, scrutinee).st,
            arms,
            !(result_ty is Unit),
            v,
        ),
    ensures
        ({
            let e = HExpr {
                kind: HExprKind::Match { scrutinee: Box::new(scrutinee), arms, result_ty },
                ty,
            };
            let s = lowered::expr_c(d, cx, st, scrutinee).text;
            let read = if value_laws::some_values(cx.sym.the_enum(id)) {
                pieces::dot(pieces::a_name("__s"@), "tag"@)
            } else {
                pieces::a_name("__s"@)
            };
            lowered::expr_c(d, cx, st, e).text == "__extension__ ({ "@ + (ctypes::ty_c(cx.sym,
                scrutinee.ty)
                + " __s = "@ + s + "; "@) + result_declared(cx.sym, result_ty) + ("switch ("@
                    + read.text + ") { "@ + cases_shown(v, v.len()) + "} "@)
                    + result_given(result_ty) + "})"@
        }),
        forall|t: int, i: int| #[trigger] taken(v, t, i) <==> meant(cx.sym, arms@, t, i),
{
    reveal(lowered::expr_c);
    reveal(lowered::match_c);
    let e = HExpr {
        kind: HExprKind::Match { scrutinee: Box::new(scrutinee), arms, result_ty },
        ty,
    };
    let o = lowered::expr_c(d, cx, st, scrutinee);
    let wanted = !(result_ty is Unit);
    law_switch_where_the_tag_decides(scrutinee.ty, arms@, id);
    lemma_cases(d, cx, o.st, arms, wanted, v, arms@.len());
    lemma_simple(cx.sym.the_enum(id));
    lemma_layout_words(cx.sym.the_enum(id));
    lemma_match_text(
        ctypes::ty_c(cx.sym, scrutinee.ty),
        o.text,
        result_declared(cx.sym, result_ty),
        patterns::tag_place(cx.sym.the_enum(id)),
        cases_shown(v, v.len()),
        result_given(result_ty),
    );
    assert(lowered::expr_c(d, cx, st, e) == lowered::match_c(d, cx, st, e));
    let a = lowered::switch_arms_c(d, cx, o.st, arms, wanted, arms@.len());
    assert(lowered::match_c(d, cx, st, e).text == lowered::match_head(cx.sym, scrutinee.ty, o.text,
        result_ty)
        + "switch ("@ + patterns::tag_place(cx.sym.the_enum(id)) + ") { "@ + a.text + "} "@
            + lowered::match_tail(
        result_ty,
    ));
    assert forall|t: int, i: int| #[trigger] taken(v, t, i) <==> meant(cx.sym, arms@, t, i) by {
        if 0 <= i < v.len() {
            assert(v[i].tag is Some <==> arms@[i].kind is Variant);
            if v[i].tag is None {
                if taken(v, t, i) {
                    assert forall|j: int| 0 <= j < arms@.len() implies match (
                    #[trigger] arms@[j]).kind {
                        HArmKind::Variant { enum_id, variant,
                            .. } => cx.sym.enums@[enum_id.0 as int].variants@[variant as int].tag
                            != t,
                        _ => true,
                    } by {
                        assert(v[j].tag != Some(t));
                    }
                }
                if meant(cx.sym, arms@, t, i) {
                    assert forall|j: int| 0 <= j < v.len() implies (#[trigger] v[j]).tag != Some(
                        t,
                    ) by {
                        assert(match arms@[j].kind {
                            HArmKind::Variant { enum_id, variant,
                                .. } => cx.sym.enums@[enum_id.0 as int].variants@[variant as int].tag
                                != t,
                            _ => true,
                        });
                    }
                }
            }
        }
    }
}

proof fn lemma_match_text(
    t: Seq<char>,
    s: Seq<char>,
    r: Seq<char>,
    p: Seq<char>,
    c: Seq<char>,
    l: Seq<char>,
)
    ensures
        "__extension__ ({ "@ + t + " __s = "@ + s + "; "@ + r + "switch ("@ + p + ") { "@ + c
            + "} "@
            + (l + "})"@) == "__extension__ ({ "@ + (t + " __s = "@ + s + "; "@) + r + ("switch ("@
                + p
            + ") { "@ + c + "} "@) + l + "})"@,
{
    broadcast use pieces::lemma_put_together;

}

/// A match that is no switch tries its arms in their order inside a loop that runs once, which
/// the arm that matches leaves.
pub proof fn law_chain_tries_arms_in_order(
    d: nat,
    cx: Cx,
    st: St,
    scrutinee: HExpr,
    arms: Vec<HMatchArm>,
    result_ty: HType,
    ty: HType,
    wanted: bool,
    i: int,
)
    requires
        patterns::switch_enum(scrutinee.ty, arms@) is None,
        0 <= i < arms@.len(),
        wanted == !(result_ty is Unit),
    ensures
        ({
            let e = HExpr {
                kind: HExprKind::Match { scrutinee: Box::new(scrutinee), arms, result_ty },
                ty,
            };
            let o = lowered::expr_c(d, cx, st, scrutinee);
            let before = lowered::chain_arms_c(d, cx, o.st, arms, wanted, i as nat);
            let this = lowered::chain_arm_c(d, cx, before.st, arms@[i], wanted).text;
            let head = "__extension__ ({ "@ + (ctypes::ty_c(cx.sym, scrutinee.ty) + " __s = "@
                + o.text
                + "; "@) + result_declared(cx.sym, result_ty) + "do { "@;
            let tail = "} while (0); "@ + result_given(result_ty)
                + "})"@;
            exists|rest: Seq<char>|
                lowered::expr_c(d, cx, st, e).text == head + #[trigger] (before.text + this + rest)
                    + tail
        }),
{
    reveal(lowered::expr_c);
    reveal(lowered::match_c);
    let e = HExpr {
        kind: HExprKind::Match { scrutinee: Box::new(scrutinee), arms, result_ty },
        ty,
    };
    let o = lowered::expr_c(d, cx, st, scrutinee);
    lemma_chain(d, cx, o.st, arms, wanted, arms@.len(), i);
    let before = lowered::chain_arms_c(d, cx, o.st, arms, wanted, i as nat);
    let this = lowered::chain_arm_c(d, cx, before.st, arms@[i], wanted).text;
    let all = lowered::chain_arms_c(d, cx, o.st, arms, wanted, arms@.len()).text;
    let rest = choose|rest: Seq<char>| all == #[trigger] (before.text + this + rest);
    let r = result_declared(cx.sym, result_ty);
    let l = result_given(result_ty);
    lemma_chain_text(ctypes::ty_c(cx.sym, scrutinee.ty), o.text, r, all, l);
    let head = "__extension__ ({ "@ + (ctypes::ty_c(cx.sym, scrutinee.ty) + " __s = "@ + o.text
        + "; "@) + r
        + "do { "@;
    let tail = "} while (0); "@ + l + "})"@;
    assert(lowered::expr_c(d, cx, st, e) == lowered::match_c(d, cx, st, e));
    assert(lowered::match_c(d, cx, st, e).text == lowered::match_head(cx.sym, scrutinee.ty, o.text,
        result_ty)
        + "do { "@ + all + "} while (0); "@ + lowered::match_tail(result_ty));
    assert(lowered::expr_c(d, cx, st, e).text == head + all + tail);
    assert(lowered::expr_c(d, cx, st, e).text == head + (before.text + this + rest) + tail);
}

proof fn lemma_chain_text(t: Seq<char>, s: Seq<char>, r: Seq<char>, c: Seq<char>, l: Seq<char>)
    ensures
        "__extension__ ({ "@ + t + " __s = "@ + s + "; "@ + r + "do { "@ + c + "} while (0); "@ + (l
            + "})"@) == "__extension__ ({ "@ + (t + " __s = "@ + s + "; "@) + r + "do { "@ + c + (
        "} while (0); "@ + l + "})"@),
{
    broadcast use pieces::lemma_put_together;

}

proof fn lemma_chain(
    d: nat,
    cx: Cx,
    st: St,
    arms: Vec<HMatchArm>,
    wanted: bool,
    n: nat,
    i: int,
)
    requires
        0 <= i < n <= arms@.len(),
    ensures
        ({
            let before = lowered::chain_arms_c(d, cx, st, arms, wanted, i as nat);
            let this = lowered::chain_arm_c(d, cx, before.st, arms@[i], wanted).text;
            exists|rest: Seq<char>|
                lowered::chain_arms_c(d, cx, st, arms, wanted, n).text == #[trigger] (before.text
                    + this
                    + rest)
        }),
    decreases n,
{
    let before = lowered::chain_arms_c(d, cx, st, arms, wanted, i as nat);
    let this = lowered::chain_arm_c(d, cx, before.st, arms@[i], wanted).text;
    if i == n - 1 {
        assert(before.text + this =~= before.text + this + Seq::<char>::empty());
    } else {
        lemma_chain(d, cx, st, arms, wanted, (n - 1) as nat, i);
        let p = lowered::chain_arms_c(d, cx, st, arms, wanted, (n - 1) as nat);
        let rest = choose|rest: Seq<char>| p.text == #[trigger] (before.text + this + rest);
        let l = lowered::chain_arm_c(d, cx, p.st, arms@[n - 1], wanted).text;
        assert(p.text + l =~= before.text + this + (rest + l));
    }
}

/// One arm of a chain: where its test holds it binds its names, runs and leaves the chain. A
/// guard that may read the bound names is tested behind them, and where it fails the next arm
/// is tried; another guard is part of the test.
pub proof fn law_chain_arm_runs_where_it_matches(
    d: nat,
    cx: Cx,
    st: St,
    a: HMatchArm,
    wanted: bool,
)
    ensures
        ({
            let text = lowered::chain_arm_c(d, cx, st, a, wanted).text;
            let test = patterns::predicate_text(cx.sym, a.kind);
            let binds = patterns::bindings_text(cx.sym, cx.f, cx.tag, a.kind)
                + patterns::scrutinee_text(
                cx.sym,
                cx.f,
                cx.tag,
                a.scrut_binding,
            );
            match a.guard {
                None => text == "if ("@ + test + ") { "@ + binds + lowered::arm_body_c(
                    d,
                    cx,
                    st,
                    a,
                    wanted,
                ).text + " break; } "@,
                Some(g) => {
                    let o = lowered::expr_c(d, cx, st, g);
                    let body = lowered::arm_body_c(d, cx, o.st, a, wanted).text;
                    if a.scrut_binding is Some || a.kind is Variant {
                        text == "if ("@ + test + ") { "@ + binds + ("if ("@ + o.text + ") { "@
                            + body
                            + " break; } "@) + "} "@
                    } else if test == "1"@ {
                        text == "if ("@ + ("("@ + o.text + ")"@) + ") { "@ + binds + body
                            + " break; } "@
                    } else {
                        text == "if ("@ + ("(("@ + test + ") && ("@ + o.text + "))"@) + ") { "@
                            + binds
                            + body + " break; } "@
                    }
                },
            }
        }),
{
    reveal(lowered::expr_c);
    let test = patterns::predicate_text(cx.sym, a.kind);
    let b = patterns::bindings_text(cx.sym, cx.f, cx.tag, a.kind);
    let s = patterns::scrutinee_text(cx.sym, cx.f, cx.tag, a.scrut_binding);
    reveal_strlit("");
    match a.guard {
        None => {
            let o = lowered::arm_body_c(d, cx, st, a, wanted).text;
            assert("if ("@ + test + ") { "@ + b + s + ""@ + o + " break; } "@ =~= "if ("@ + test
                + ") { "@ + (b + s) + o + " break; } "@);
        },
        Some(g) => {
            let go = lowered::expr_c(d, cx, st, g);
            let o = lowered::arm_body_c(d, cx, go.st, a, wanted).text;
            if lowered::guard_inside(a) {
                lemma_guard_text("if ("@ + test + ") { "@, b, s, go.text, o);
            } else {
                let t = lowered::arm_test(test, a, go.text);
                assert("if ("@ + t + ") { "@ + b + s + ""@ + o + " break; } "@ =~= "if ("@ + t
                    + ") { "@ + (b + s) + o + " break; } "@);
            }
        },
    }
}

proof fn lemma_guard_text(h: Seq<char>, b: Seq<char>, s: Seq<char>, g: Seq<char>, o: Seq<char>)
    ensures
        h + b + s + ("if ("@ + g + ") { "@) + o + " break; } } "@ == h + (b + s) + ("if ("@ + g
            + ") { "@ + o + " break; } "@) + "} "@,
{
    broadcast use pieces::lemma_put_together;

    reveal_strlit(" break; } } ");
    reveal_strlit(" break; } ");
    reveal_strlit("} ");
    assert(" break; } } "@ =~= " break; } "@ + "} "@);
}

/// What an arm does: its statements, then the value, which becomes that of the match or is
/// dropped, then its releases.
pub proof fn law_arm_gives_its_value(d: nat, cx: Cx, st: St, a: HMatchArm, wanted: bool)
    ensures
        ({
            let s = if cx.spliced() {
                lowered::inline_stmts_c(d, cx, st, a.body.stmts, a.body.stmts@.len())
            } else {
                lowered::stmts_c(d, cx, st, a.body.stmts, a.body.stmts@.len())
            };
            let end = lowered::arm_end(cx, a.body);
            match a.value {
                Some(v) => lowered::arm_body_c(d, cx, st, a, wanted).text == s.text + (if wanted {
                    "__r = ("@ + lowered::expr_c(d, cx, s.st, v).text + "); "@
                } else {
                    "(void)("@ + lowered::expr_c(d, cx, s.st, v).text + "); "@
                }) + end,
                None => lowered::arm_body_c(d, cx, st, a, wanted).text == s.text + end,
            }
        }),
{
    reveal(lowered::expr_c);
    let s = if cx.spliced() {
        lowered::inline_stmts_c(d, cx, st, a.body.stmts, a.body.stmts@.len())
    } else {
        lowered::stmts_c(d, cx, st, a.body.stmts, a.body.stmts@.len())
    };
    let end = lowered::arm_end(cx, a.body);
    if let Some(v) = a.value {
        let o = lowered::expr_c(d, cx, s.st, v).text;
        assert(s.text + "__r = ("@ + o + "); "@ + end =~= s.text + ("__r = ("@ + o + "); "@) + end);
        assert(s.text + "(void)("@ + o + "); "@ + end =~= s.text + ("(void)("@ + o + "); "@) + end);
    }
}

/// The test of an arm: a null pointer, an equal literal, or a variant; the rest needs none.
pub proof fn law_simple_tests(sym: SymTab, k: HArmKind)
    ensures
        k is Else ==> patterns::predicate_text(sym, k) == "1"@,
        k is Null ==> patterns::predicate_text(sym, k) == pieces::paren(
            pieces::binary("=="@, pieces::a_name("__s"@), pieces::a_name("NULL"@)),
        ).text,
        k matches HArmKind::Lit(e) ==> patterns::predicate_text(sym, k) == pieces::paren(
            pieces::binary("=="@, pieces::a_name("__s"@),
                pieces::constant(operators::literal_text(e), Val::Odd)),
        ).text,
{
    reveal_strlit("(__s == NULL)");
    reveal_strlit("(__s == ");
    reveal_strlit(")");
    reveal_strlit("(");
    reveal_strlit("__s");
    reveal_strlit(" ");
    reveal_strlit("==");
    reveal_strlit("NULL");
    assert("(__s == NULL)"@ =~= pieces::paren(pieces::binary("=="@, pieces::a_name("__s"@),
        pieces::a_name("NULL"@))).text);
    if let HArmKind::Lit(e) = k {
        assert(patterns::predicate_text(sym, k) =~= pieces::paren(
            pieces::binary("=="@, pieces::a_name("__s"@),
                pieces::constant(operators::literal_text(e), Val::Odd)),
        ).text);
    }
}

/// How many of the first `n` checks there are.
pub open spec fn count_checks(checks: Seq<Option<HExpr>>, n: nat) -> nat
    decreases n,
{
    if n == 0 || n > checks.len() {
        0
    } else {
        count_checks(checks, (n - 1) as nat) + (if checks[n - 1] is Some { 1nat } else { 0nat })
    }
}

/// The test of a variant compares the tag and then, for each field with a literal and for no
/// other, that field of the variant with the literal; all of them have to hold.
pub proof fn law_variant_tests(
    sym: SymTab,
    e: EnumInfo,
    v: VariantInfo,
    checks: Seq<Option<HExpr>>,
    n: nat,
    i: int,
)
    requires
        n <= checks.len(),
        i < n,
    ensures
        ({
            let tests = patterns::variant_tests(e, v, checks, n);
            let read = if value_laws::some_values(e) {
                pieces::dot(pieces::a_name("__s"@), "tag"@)
            } else {
                pieces::a_name("__s"@)
            };
            &&& tests.len() == 1 + count_checks(checks, n)
            &&& tests[0] == pieces::paren(
                pieces::binary("=="@, read, pieces::constant(text::decimal(v.tag as int),
                    Val::Num(v.tag as int))),
            ).text
            &&& 0 <= i && checks[i] is Some ==> tests[(1 + count_checks(checks, i as nat)) as int]
                == pieces::paren(
                pieces::binary(
                    "=="@,
                    pieces::dot(
                        pieces::dot(pieces::dot(pieces::a_name("__s"@), "payload"@),
                            text::ident(v.name@)),
                        text::ident(v.fields@[i].name@),
                    ),
                    pieces::constant(operators::literal_text(checks[i]->0), Val::Odd),
                ),
            ).text
        }),
    decreases n,
{
    lemma_simple(e);
    lemma_layout_words(e);
    lemma_test_words(e, v);
    if n == 0 {
    } else {
        law_variant_tests(sym, e, v, checks, (n - 1) as nat, if i < n - 1 { i } else { -1 });
        if 0 <= i && i == n - 1 && checks[i] is Some {
            lemma_check_words(text::ident(v.name@), text::ident(v.fields@[i].name@),
                operators::literal_text(checks[i]->0));
        }
        lemma_counts(checks, (n - 1) as nat, i);
    }
}

proof fn lemma_counts(checks: Seq<Option<HExpr>>, n: nat, i: int)
    requires
        n <= checks.len(),
    ensures
        0 <= i < n && checks[i] is Some ==> count_checks(checks, i as nat) < count_checks(checks,
            n),
    decreases n,
{
    if 0 <= i < n {
        if i < n - 1 {
            lemma_counts(checks, (n - 1) as nat, i);
        }
    }
}

proof fn lemma_test_words(e: EnumInfo, v: VariantInfo)
    ensures
        "("@ + patterns::tag_place(e) + " == "@ + text::decimal(v.tag as int) + ")"@
            == pieces::paren(
            pieces::binary(
                "=="@,
                pieces::constant(patterns::tag_place(e), Val::Odd),
                pieces::constant(text::decimal(v.tag as int), Val::Num(v.tag as int)),
            ),
        ).text,
{
    broadcast use pieces::lemma_put_together;

    reveal_strlit(" == ");
    reveal_strlit(" ");
    reveal_strlit("==");
    assert(" == "@ =~= " "@ + "=="@ + " "@);
}

proof fn lemma_check_words(v: Seq<char>, f: Seq<char>, l: Seq<char>)
    ensures
        "(__s.payload."@ + v + "."@ + f + " == "@ + l + ")"@ == pieces::paren(
            pieces::binary(
                "=="@,
                pieces::dot(pieces::dot(pieces::dot(pieces::a_name("__s"@), "payload"@), v), f),
                pieces::constant(l, Val::Odd),
            ),
        ).text,
{
    broadcast use pieces::lemma_put_together;

    reveal_strlit(" == ");
    reveal_strlit(" ");
    reveal_strlit("==");
    reveal_strlit("(__s.payload.");
    reveal_strlit("(");
    reveal_strlit("__s");
    reveal_strlit(".");
    reveal_strlit("payload");
    assert(" == "@ =~= " "@ + "=="@ + " "@);
    assert("(__s.payload."@ =~= "("@ + "__s"@ + "."@ + "payload"@ + "."@);
}

/// An arm binds exactly the names that it lists: each to the field in its position, and where
/// it names the scrutinee, that name to the whole value.
pub proof fn law_arm_binds_its_fields(
    sym: SymTab,
    f: HFunc,
    tag: Option<Seq<char>>,
    v: VariantInfo,
    bindings: Seq<Option<LocalId>>,
    n: nat,
    i: int,
)
    requires
        0 <= i < n <= bindings.len(),
    ensures
        bindings[i] matches Some(id) ==> {
            let before = patterns::bound_fields(sym, f, tag, v, bindings, i as nat);
            let this = ctypes::ty_c(sym, f.locals@[id.0 as int].ty) + " "@ + ctypes::scoped_c(f,
                tag, id) + " = "@
                + pieces::dot(
                pieces::dot(pieces::dot(pieces::a_name("__s"@), "payload"@), text::ident(v.name@)),
                text::ident(v.fields@[i].name@),
            ).text + "; "@;
            patterns::bound_fields(sym, f, tag, v, bindings, (i + 1) as nat) == before + this
        },
        bindings[i] is None ==> patterns::bound_fields(sym, f, tag, v, bindings, (i + 1) as nat)
            == patterns::bound_fields(sym, f, tag, v, bindings, i as nat),
        patterns::bound_fields(sym, f, tag, v, bindings, 0) == ""@,
{
    if let Some(id) = bindings[i] {
        lemma_bound_words(
            ctypes::ty_c(sym, f.locals@[id.0 as int].ty),
            ctypes::scoped_c(f, tag, id),
            text::ident(v.name@),
            text::ident(v.fields@[i].name@),
        );
    }
}

proof fn lemma_bound_words(t: Seq<char>, n: Seq<char>, v: Seq<char>, f: Seq<char>)
    ensures
        t + " "@ + n + " = __s.payload."@ + v + "."@ + f + "; "@ == t + " "@ + n + " = "@
            + pieces::dot(
            pieces::dot(pieces::dot(pieces::a_name("__s"@), "payload"@), v),
            f,
        ).text + "; "@,
{
    broadcast use pieces::lemma_put_together;

    reveal_strlit(" = __s.payload.");
    reveal_strlit(" = ");
    reveal_strlit("__s");
    reveal_strlit(".");
    reveal_strlit("payload");
    assert(" = __s.payload."@ =~= " = "@ + "__s"@ + "."@ + "payload"@ + "."@);
}

/// The name for the whole scrutinee.
pub proof fn law_arm_names_the_scrutinee(
    sym: SymTab,
    f: HFunc,
    tag: Option<Seq<char>>,
    id: LocalId,
)
    ensures
        patterns::scrutinee_text(sym, f, tag, Some(id)) == ctypes::ty_c(sym,
            f.locals@[id.0 as int].ty) + " "@
            + ctypes::scoped_c(f, tag, id) + " = "@ + pieces::a_name("__s"@).text + "; "@,
        patterns::scrutinee_text(sym, f, tag, None) == ""@,
{
    reveal_strlit(" = __s; ");
    reveal_strlit(" = ");
    reveal_strlit("__s");
    reveal_strlit("; ");
    assert(" = __s; "@ =~= " = "@ + "__s"@ + "; "@);
    let h = ctypes::ty_c(sym, f.locals@[id.0 as int].ty) + " "@ + ctypes::scoped_c(f, tag, id);
    assert(h + (" = "@ + "__s"@ + "; "@) =~= h + " = "@ + "__s"@ + "; "@);
}

} // verus!
