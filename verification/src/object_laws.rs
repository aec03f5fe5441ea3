//! What lowered closures, function values, trait objects, array literals, allocations and
//! casts are.
use vstd::prelude::*;

use crate::builtins;
use crate::context::{Cx, St};
use crate::ctypes;
use crate::data_laws;
use crate::dispatch;
use crate::hir::{
    CastKind, EnumInfo, FuncId, FuncSig, HExpr, HExprKind, HType, LogicInfo, StructId, SymTab,
};
use crate::lowered;
use crate::operator_laws;
use crate::operators;
use crate::pieces;
use crate::pieces::{Piece, Val, World};
use crate::sorted;
use crate::text;
use crate::validity;
use crate::value_laws;
use crate::values;

verus! {

proof fn lemma_object_words()
    ensures
        "((Callable_"@ == "("@ + "("@ + "Callable_"@,
        "){ .code = (fn_"@ == "){ "@ + "."@ + "code"@ + " = "@ + "("@ + "fn_"@,
        "_raw)__tramp_"@ == "_raw"@ + ")"@ + "__tramp_"@,
        ", .env = NULL })"@ == ", "@ + "."@ + "env"@ + " = "@ + "NULL"@ + " }"@ + ")"@,
        " }; (Callable_"@ == " }"@ + "; "@ + "("@ + "Callable_"@,
        "_raw)"@ == "_raw"@ + ")"@,
        "_closure_trampoline, .env = __env }; }))"@ == "_closure_trampoline"@ + ", "@ + "."@
            + "env"@ + " = "@ + "__env"@ + " }"@ + "; "@ + "}))"@,
        "((Dyn_"@ == "("@ + "("@ + "Dyn_"@,
        "){ .data = "@ == "){ "@ + "."@ + "data"@ + " = "@,
        ", .vtbl = &"@ == ", "@ + "."@ + "vtbl"@ + " = "@ + "&"@,
        " })"@ == " }"@ + ")"@,
{
    reveal_strlit("((Callable_");
    reveal_strlit("(");
    reveal_strlit("Callable_");
    reveal_strlit("){ .code = (fn_");
    reveal_strlit("){ ");
    reveal_strlit(".");
    reveal_strlit("code");
    reveal_strlit(" = ");
    reveal_strlit("fn_");
    reveal_strlit("_raw)__tramp_");
    reveal_strlit("_raw");
    reveal_strlit(")");
    reveal_strlit("__tramp_");
    reveal_strlit(", .env = NULL })");
    reveal_strlit(", ");
    reveal_strlit("env");
    reveal_strlit("NULL");
    reveal_strlit(" }");
    reveal_strlit(" }; (Callable_");
    reveal_strlit("; ");
    reveal_strlit("_raw)");
    reveal_strlit("_closure_trampoline, .env = __env }; }))");
    reveal_strlit("_closure_trampoline");
    reveal_strlit("__env");
    reveal_strlit("}))");
    reveal_strlit("((Dyn_");
    reveal_strlit("Dyn_");
    reveal_strlit("){ .data = ");
    reveal_strlit("data");
    reveal_strlit(", .vtbl = &");
    reveal_strlit("vtbl");
    reveal_strlit("&");
    reveal_strlit(" })");
    assert("((Callable_"@ =~= "("@ + "("@ + "Callable_"@);
    assert("){ .code = (fn_"@ =~= "){ "@ + "."@ + "code"@ + " = "@ + "("@ + "fn_"@);
    assert("_raw)__tramp_"@ =~= "_raw"@ + ")"@ + "__tramp_"@);
    assert(", .env = NULL })"@ =~= ", "@ + "."@ + "env"@ + " = "@ + "NULL"@ + " }"@ + ")"@);
    assert(" }; (Callable_"@ =~= " }"@ + "; "@ + "("@ + "Callable_"@);
    assert("_raw)"@ =~= "_raw"@ + ")"@);
    assert("_closure_trampoline, .env = __env }; }))"@ =~= "_closure_trampoline"@ + ", "@ + "."@
        + "env"@ + " = "@ + "__env"@ + " }"@ + "; "@ + "}))"@);
    assert("((Dyn_"@ =~= "("@ + "("@ + "Dyn_"@);
    assert("){ .data = "@ =~= "){ "@ + "."@ + "data"@ + " = "@);
    assert(", .vtbl = &"@ =~= ", "@ + "."@ + "vtbl"@ + " = "@ + "&"@);
    assert(" })"@ =~= " }"@ + ")"@);
}


/// A pair of members in C.
pub open spec fn pair(t: Seq<char>, a: Seq<char>, x: Seq<char>, b: Seq<char>, y: Seq<char>) -> Seq<
    char,
> {
    "("@ + t + "){ "@ + ("."@ + a + " = "@ + x) + ", "@ + ("."@ + b + " = "@ + y) + " }"@
}

/// The type of a function value and that of its code are those that are declared for its
/// signature, and the code of a plain function is its trampoline, which is defined under
/// that name.
pub proof fn law_function_value_is_its_trampoline(
    d: nat,
    cx: Cx,
    st: St,
    id: FuncId,
    ty: HType,
    linked: bool,
)
    ensures
        ({
            let sig = cx.sym.the_sig(id);
            let key = ctypes::sig_key(sig.ret_key@, sig.param_keys@);
            let name = "__tramp_"@ + ctypes::callee_c(sig);
            &&& lowered::expr_c(d, cx, st, value_laws::an_expr(HExprKind::FnRef(id), ty)).text
                == "("@ + pair(
                "Callable_"@ + key,
                "code"@,
                "("@ + ("fn_"@ + key + "_raw"@) + ")"@ + name,
                "env"@,
                "NULL"@,
            ) + ")"@
            &&& text::has_part(dispatch::tramp_text(cx.sym, sig, linked), " "@ + name + "("@)
        }),
{
    reveal(lowered::expr_c);
    let sig = cx.sym.the_sig(id);
    let key = ctypes::sig_key(sig.ret_key@, sig.param_keys@);
    lemma_fn_ref_text(key, ctypes::callee_c(sig));
    lemma_tramp_name(cx.sym, sig, linked);
}

proof fn lemma_fn_ref_text(key: Seq<char>, callee: Seq<char>)
    ensures
        "((Callable_"@ + key + "){ .code = (fn_"@ + key + "_raw)__tramp_"@ + callee
            + ", .env = NULL })"@ == "("@ + pair(
            "Callable_"@ + key,
            "code"@,
            "("@ + ("fn_"@ + key + "_raw"@) + ")"@ + ("__tramp_"@ + callee),
            "env"@,
            "NULL"@,
        ) + ")"@,
{
    broadcast use pieces::lemma_put_together;

    lemma_object_words();
}

proof fn lemma_tramp_name(sym: SymTab, sig: FuncSig, linked: bool)
    ensures
        text::has_part(dispatch::tramp_text(sym, sig, linked), " "@ + ("__tramp_"@
            + ctypes::callee_c(sig)) + "("@),
{
    reveal_strlit(" __tramp_");
    reveal_strlit(" ");
    reveal_strlit("__tramp_");
    reveal_strlit("(");
    let n = sig.param_tys@.len();
    let part = " "@ + ("__tramp_"@ + ctypes::callee_c(sig)) + "("@;
    let before = "static "@ + ctypes::ret_c(sym, sig.ret);
    let list = text::joined(dispatch::tramp_params(sym, sig.param_tys@, 0, n), ", "@);
    assert(before + " __tramp_"@ + ctypes::callee_c(sig) + "("@ =~= before + part);
    let head = before + part + list + ") {"@;
    text::lemma_part_last(before, part);
    text::lemma_part_kept(before + part, list, part);
    text::lemma_part_kept(before + part + list, ") {"@, part);
    text::lemma_part_after(""@, head, part);
    text::lemma_part_kept(""@ + head, "\n"@, part);
    let first = text::line_c(""@, head);
    let ind = text::deeper_c(""@);
    let call_text = ctypes::callee_c(sig) + "("@ + text::joined(dispatch::tramp_args(Seq::empty(),
        n), ", "@) + ");"@;
    let mid = text::line_c(ind, "(void)__env;"@);
    let body = if sig.ret is Unit {
        text::line_c(ind, if linked { call_text } else { "(void)"@ + ctypes::callee_c(sig) + ";"@ })
            + text::line_c(
            ind,
            "return;"@,
        )
    } else {
        text::line_c(ind, "return "@ + call_text)
    };
    text::lemma_part_kept(first, mid, part);
    text::lemma_part_kept(first + mid, body, part);
    text::lemma_part_kept(first + mid + body, text::line_c(""@, "}"@), part);
    assert(dispatch::tramp_text(sym, sig, linked) == first + mid + body + text::line_c(""@, "}"@));
}

/// A closure holds its captured values in an environment of its own, each in the member of
/// the struct that has its position, and its code is the trampoline of the lifted function.
pub proof fn law_closure_holds_its_values(
    d: nat,
    cx: Cx,
    st: St,
    lifted: FuncId,
    env_struct: StructId,
    env_values: Vec<HExpr>,
    ty: HType,
    i: int,
)
    requires
        env_values@.len() == cx.sym.the_struct(env_struct).fields@.len(),
        0 <= i < env_values@.len(),
    ensures
        ({
            let e = value_laws::an_expr(HExprKind::Closure { lifted, env_struct, env_values }, ty);
            let env = cx.sym.the_struct(env_struct);
            let sig = cx.sym.the_sig(lifted);
            let name = text::ident(env.name@);
            let n = env.fields@.len();
            let vals = lowered::exprs_c(d, cx, st, env_values, 0, n).texts;
            let inits = values::field_inits(env.fields@, vals, n);
            let key = ctypes::sig_key(sig.ret_key@, sig.param_keys@.skip(1));
            &&& inits.len() == n
            &&& inits[i] == "."@ + text::ident(env.fields@[i].name@) + " = "@ + vals[i]
            &&& sig.param_keys@.len() > 0 ==> lowered::expr_c(d, cx, st, e).text
                == "(__extension__ ({ "@ + (
            name + "* __env = ("@ + name + "*)malloc(sizeof("@ + name + ")); "@) + ("*__env = ("@
                + name + "){ "@ + text::joined(inits, ", "@) + " }; "@) + pair(
                "Callable_"@ + key,
                "code"@,
                "("@ + ("fn_"@ + key + "_raw"@) + ")"@ + (text::ident(sig.c_name@)
                    + "_closure_trampoline"@),
                "env"@,
                "__env"@,
            ) + "; }))"@
            &&& forall|s: StructId| #[trigger]
                text::has_part(
                    dispatch::closure_tramp_text(cx.sym, sig, s),
                    " "@ + (text::ident(sig.c_name@) + "_closure_trampoline"@) + "("@,
                )
        }),
{
    reveal(lowered::expr_c);
    let e = value_laws::an_expr(HExprKind::Closure { lifted, env_struct, env_values }, ty);
    let env = cx.sym.the_struct(env_struct);
    let sig = cx.sym.the_sig(lifted);
    let n = env.fields@.len();
    assert(validity::captured(env, env_values@.len()) == n);
    value_laws::law_expressions_in_order(d, cx, st, env_values, 0, n, i);
    let vals = lowered::exprs_c(d, cx, st, env_values, 0, n).texts;
    let inits = values::field_inits(env.fields@, vals, n);
    if sig.param_keys@.len() > 0 {
        let key = ctypes::sig_key(sig.ret_key@, sig.param_keys@.skip(1));
        assert(values::after_env(sig.param_keys@) == sig.param_keys@.skip(1));
        lemma_closure_text(text::ident(env.name@), text::joined(inits, ", "@), key,
            text::ident(sig.c_name@));
    }
    assert forall|s: StructId| #[trigger]
        text::has_part(
            dispatch::closure_tramp_text(cx.sym, sig, s),
            " "@ + (text::ident(sig.c_name@) + "_closure_trampoline"@) + "("@,
        ) by {
        lemma_closure_tramp_name(cx.sym, sig, s);
    }
}

proof fn lemma_closure_tramp_name(sym: SymTab, sig: FuncSig, s: StructId)
    ensures
        text::has_part(
            dispatch::closure_tramp_text(sym, sig, s),
            " "@ + (text::ident(sig.c_name@) + "_closure_trampoline"@) + "("@,
        ),
{
    reveal_strlit("_closure_trampoline(");
    reveal_strlit("_closure_trampoline");
    reveal_strlit("(");
    let n = (sig.param_tys@.len() - 1) as nat;
    let lifted = text::ident(sig.c_name@);
    let part = " "@ + (lifted + "_closure_trampoline"@) + "("@;
    let before = "static "@ + ctypes::ret_c(sym, sig.ret);
    let list = text::joined(dispatch::tramp_params(sym, sig.param_tys@, 1, n), ", "@);
    assert(before + " "@ + lifted + "_closure_trampoline("@ =~= before + part);
    let head = before + part + list + ") {"@;
    text::lemma_part_last(before, part);
    text::lemma_part_kept(before + part, list, part);
    text::lemma_part_kept(before + part + list, ") {"@, part);
    text::lemma_part_after(""@, head, part);
    text::lemma_part_kept(""@ + head, "\n"@, part);
    let first = text::line_c(""@, head);
    let ind = text::deeper_c(""@);
    let name = text::ident(sym.the_struct(s).name@);
    let call_text = lifted + "("@ + text::joined(dispatch::tramp_args(seq!["__es"@], n), ", "@)
        + ");"@;
    let mid = text::line_c(ind, name + "* __es = ("@ + name + "*)__env;"@);
    let body = if sig.ret is Unit {
        text::line_c(ind, call_text) + text::line_c(ind, "return;"@)
    } else {
        text::line_c(ind, "return "@ + call_text)
    };
    text::lemma_part_kept(first, mid, part);
    text::lemma_part_kept(first + mid, body, part);
    text::lemma_part_kept(first + mid + body, text::line_c(""@, "}"@), part);
    assert(dispatch::closure_tramp_text(sym, sig, s) == first + mid + body + text::line_c(""@,
        "}"@));
}

proof fn lemma_closure_text(name: Seq<char>, inits: Seq<char>, key: Seq<char>, c: Seq<char>)
    ensures
        "(__extension__ ({ "@ + name + "* __env = ("@ + name + "*)malloc(sizeof("@ + name
            + ")); *__env = ("@ + name + "){ "@ + inits + " }; (Callable_"@ + key
            + "){ .code = (fn_"@ + key + "_raw)"@ + c + "_closure_trampoline, .env = __env }; }))"@
            == "(__extension__ ({ "@ + (name + "* __env = ("@ + name + "*)malloc(sizeof("@ + name
            + ")); "@) + ("*__env = ("@ + name + "){ "@ + inits + " }; "@) + pair(
            "Callable_"@ + key,
            "code"@,
            "("@ + ("fn_"@ + key + "_raw"@) + ")"@ + (c + "_closure_trampoline"@),
            "env"@,
            "__env"@,
        ) + "; }))"@,
{
    broadcast use pieces::lemma_put_together;

    lemma_object_words();
    reveal_strlit(")); *__env = (");
    reveal_strlit(")); ");
    reveal_strlit("*__env = (");
    reveal_strlit(" }; ");
    reveal_strlit(" }");
    reveal_strlit("; ");
    reveal_strlit("; }))");
    reveal_strlit("}))");
    assert(")); *__env = ("@ =~= ")); "@ + "*__env = ("@);
    assert(" }; "@ =~= " }"@ + "; "@);
    assert("; }))"@ =~= "; "@ + "}))"@);
}

/// A struct as a trait object: its address, and the table of that trait for that struct.
pub proof fn law_trait_object_has_its_table(
    d: nat,
    cx: Cx,
    st: St,
    x: HExpr,
    trait_name: String,
    struct_id: StructId,
    to: HType,
    ty: HType,
)
    ensures
        ({
            let e = value_laws::an_expr(
                HExprKind::Cast {
                    expr: Box::new(x),
                    kind: CastKind::ToDyn { trait_name, struct_id },
                    to,
                },
                ty,
            );
            let v = lowered::expr_c(d, cx, st, x).text;
            let t = text::ident(trait_name@);
            let table = t + "_vtbl_for_"@ + text::ident(cx.sym.the_struct(struct_id).name@);
            let data = if x.ty is Ref { "(void*)("@ + v + ")"@ } else { "(void*)(&("@ + v + "))"@ };
            &&& lowered::expr_c(d, cx, st, e).text == "("@ + pair(
                "Dyn_"@ + t,
                "data"@,
                data,
                "vtbl"@,
                "&"@ + table,
            ) + ")"@
            &&& forall|l: LogicInfo| #[trigger]
                text::has_part(dispatch::table_text(cx.sym, l, trait_name@, struct_id), " "@ + table
                    + " = {"@)
        }),
{
    reveal(lowered::expr_c);
    let e = value_laws::an_expr(
        HExprKind::Cast {
            expr: Box::new(x),
            kind: CastKind::ToDyn { trait_name, struct_id },
            to,
        },
        ty,
    );
    let v = lowered::expr_c(d, cx, st, x).text;
    let t = text::ident(trait_name@);
    let s = text::ident(cx.sym.the_struct(struct_id).name@);
    let table = t + "_vtbl_for_"@ + s;
    let data = if x.ty is Ref { "(void*)("@ + v + ")"@ } else { "(void*)(&("@ + v + "))"@ };
    lemma_dyn_text(t, data, s);
    assert forall|l: LogicInfo| #[trigger]
        text::has_part(dispatch::table_text(cx.sym, l, trait_name@, struct_id), " "@ + table
            + " = {"@) by {
        let first = "static const "@ + t + "_vtbl"@;
        let part = " "@ + table + " = {"@;
        reveal_strlit("_vtbl ");
        reveal_strlit("_vtbl");
        reveal_strlit(" ");
        assert("static const "@ + t + "_vtbl "@ + t + "_vtbl_for_"@ + s + " = {"@ =~= first + part);
        text::lemma_part_last(first, part);
        text::lemma_part_after(""@, first + part, part);
        text::lemma_part_kept(""@ + (first + part), "\n"@, part);
        let head = text::line_c(""@, first + part);
        let names = sorted::ascending::<String>(dispatch::method_names(cx.sym, l));
        let mid = dispatch::entries_text(cx.sym, l, struct_id, text::deeper_c(""@), names,
            names.len());
        text::lemma_part_kept(head, mid, part);
        text::lemma_part_kept(head + mid, text::line_c(""@, "};"@), part);
        assert(dispatch::table_text(cx.sym, l, trait_name@, struct_id) == head + mid
            + text::line_c(""@, "};"@));
    }
}

proof fn lemma_dyn_text(t: Seq<char>, data: Seq<char>, s: Seq<char>)
    ensures
        "((Dyn_"@ + t + "){ .data = "@ + data + ", .vtbl = &"@ + t + "_vtbl_for_"@ + s + " })"@
            == "("@
            + pair("Dyn_"@ + t, "data"@, data, "vtbl"@, "&"@ + (t + "_vtbl_for_"@ + s)) + ")"@,
{
    broadcast use pieces::lemma_put_together;

    lemma_object_words();
}

/// A call through a trait object takes the method of that name from its table and gives it
/// the object's data and then the other arguments, in their order.
pub proof fn law_dispatch_passes_its_arguments(
    d: nat,
    cx: Cx,
    st: St,
    callee: FuncId,
    args: Vec<HExpr>,
    ty: HType,
    o: Piece,
    a: Seq<Piece>,
)
    requires
        builtins::builtin_of(callee) is None,
        validity::dispatched(args@),
        args@.len() > 0,
        !(args@[0].kind is AddrOfRef),
        o.text == lowered::expr_c(d, cx, st, args@[0]).text,
        pieces::texts_of(a) == lowered::exprs_c(
            d,
            cx,
            lowered::expr_c(d, cx, st, args@[0]).st,
            args,
            1,
            args@.len(),
        ).texts,
        a.len() > 0 ==> a[0].text.len() > 0,
    ensures
        ({
            let e = value_laws::an_expr(HExprKind::Call { callee, args }, ty);
            let sig = cx.sym.the_sig(callee);
            let run = pieces::call(
                pieces::arrow(pieces::dot(pieces::paren(o), "vtbl"@), text::ident(sig.name@)),
                seq![pieces::dot(pieces::paren(o), "data"@)] + a,
            );
            let whole = if sig.ret is Unit {
                pieces::paren(pieces::then_value(run, pieces::constant("MAKA_UNIT"@, Val::Unit)))
            } else {
                run
            };
            lowered::expr_c(d, cx, st, e).text == whole.text
        }),
{
    reveal(lowered::expr_c);
    reveal(lowered::call_c);
    reveal(lowered::place_c);
    let e = value_laws::an_expr(HExprKind::Call { callee, args }, ty);
    let sig = cx.sym.the_sig(callee);
    let t = pieces::texts_of(a);
    let all = seq![pieces::dot(pieces::paren(o), "data"@)] + a;
    assert(pieces::texts_of(all) =~= seq![pieces::dot(pieces::paren(o), "data"@).text] + t);
    let list = text::joined(t, ", "@);
    if a.len() > 0 {
        value_laws::law_joined_keeps_order(seq![pieces::dot(pieces::paren(o), "data"@).text], t,
            ", "@);
        lemma_joined_not_empty(t, ", "@);
        assert(list.len() > 0);
    } else {
        assert(t =~= Seq::empty());
        assert(list =~= Seq::empty());
        assert(pieces::texts_of(all) =~= seq![pieces::dot(pieces::paren(o), "data"@).text]);
    }
    reveal_strlit("");
    lemma_dispatch_text(o, text::ident(sig.name@), list);
    lemma_unit_words(
        "("@ + o.text + ").vtbl->"@ + text::ident(sig.name@) + "(("@ + o.text + ").data"@ + (if list
            == ""@ {
            ""@
        } else {
            ", "@
        }) + list + ")"@,
    );
    assert(lowered::call_c(d, cx, st, callee, args).text == values::dispatch_text(sig, o.text, t));
    assert(lowered::expr_c(d, cx, st, e).text == values::dispatch_text(sig, o.text, t));
    let method = pieces::arrow(pieces::dot(pieces::paren(o), "vtbl"@), text::ident(sig.name@));
    let run = pieces::call(method, all);
    let data = pieces::dot(pieces::paren(o), "data"@).text;
    if a.len() > 0 {
        assert(seq![data][0] == data);
        assert(text::joined(pieces::texts_of(all), ", "@) == data + ", "@ + list);
    } else {
        assert(list =~= ""@);
        assert(text::joined(seq![data], ", "@) == seq![data][0]);
        assert(text::joined(pieces::texts_of(all), ", "@) == data);
    }
    assert(text::joined(pieces::texts_of(all), ", "@) == (if list == ""@ { data } else { data
        + ", "@ + list }));
    assert(run.text == method.text + "("@ + text::joined(pieces::texts_of(all), ", "@) + ")"@);
    assert(values::dispatch_text(sig, o.text, t) == values::call_value_text(run.text,
        sig.ret is Unit));
}

proof fn lemma_joined_not_empty(t: Seq<Seq<char>>, sep: Seq<char>)
    requires
        t.len() > 0,
        t[0].len() > 0,
    ensures
        text::joined(t, sep).len() > 0,
    decreases t.len(),
{
    if t.len() > 1 {
        lemma_joined_not_empty(t.drop_last(), sep);
    }
}

proof fn lemma_unit_words(c: Seq<char>)
    ensures
        "("@ + c + ", MAKA_UNIT)"@ == "("@ + (c + ", "@ + "MAKA_UNIT"@) + ")"@,
{
    broadcast use pieces::lemma_put_together;

    reveal_strlit(", MAKA_UNIT)");
    reveal_strlit(", ");
    reveal_strlit("MAKA_UNIT");
    reveal_strlit(")");
    assert(", MAKA_UNIT)"@ =~= ", "@ + "MAKA_UNIT"@ + ")"@);
}

proof fn lemma_dispatch_text(o: Piece, name: Seq<char>, list: Seq<char>)
    ensures
        "("@ + o.text + ").vtbl->"@ + name + "(("@ + o.text + ").data"@ + (if list == ""@ {
            ""@
        } else {
            ", "@
        }) + list + ")"@ == pieces::arrow(pieces::dot(pieces::paren(o), "vtbl"@), name).text + "("@
            + (if list == ""@ {
            pieces::dot(pieces::paren(o), "data"@).text
        } else {
            pieces::dot(pieces::paren(o), "data"@).text + ", "@ + list
        }) + ")"@,
{
    broadcast use pieces::lemma_put_together;

    reveal_strlit(").vtbl->");
    reveal_strlit(")");
    reveal_strlit(".");
    reveal_strlit("vtbl");
    reveal_strlit("->");
    reveal_strlit("((");
    reveal_strlit("(");
    reveal_strlit(").data");
    reveal_strlit("data");
    reveal_strlit("");
    assert(").vtbl->"@ =~= ")"@ + "."@ + "vtbl"@ + "->"@);
    assert("(("@ =~= "("@ + "("@);
    assert(").data"@ =~= ")"@ + "."@ + "data"@);
    if list == ""@ {
        let h = "("@ + o.text + ").vtbl->"@ + name + "(("@ + o.text + ").data"@;
        assert(h + ""@ + list =~= h);
    }
}

/// The elements of a literal in their order: in place, as a slice over them, or as a vector
/// whose memory holds them.
pub proof fn law_array_literal_holds_its_elements(
    d: nat,
    cx: Cx,
    st: St,
    es: Vec<HExpr>,
    ty: HType,
)
    ensures
        ({
            let text = lowered::expr_c(d, cx, st, value_laws::an_expr(HExprKind::ArrayLit(es),
                ty)).text;
            let parts = lowered::exprs_c(d, cx, st, es, 0, es@.len()).texts;
            let list = "{ "@ + text::joined(parts, ", "@) + " }"@;
            let n = text::decimal(parts.len() as int);
            match ty {
                HType::Slice { elem, .. } => text == "((Slice_"@ + ctypes::ty_key(cx.sym, *elem)
                    + "){ .ptr = (("@ + ctypes::ty_c(cx.sym, *elem) + "[])"@ + list + "), .len = "@
                        + n
                    + " })"@,
                HType::Vec { elem } => if parts.len() == 0 {
                    text == "((Vec_"@ + ctypes::ty_key(cx.sym, *elem)
                        + "){ .data = NULL, .len = 0, .cap = 0 })"@
                } else {
                    let c = ctypes::ty_c(cx.sym, *elem);
                    text == "(__extension__ ({ "@ + (c + "* __d = ("@ + c + "*)malloc(sizeof("@ + c
                        + ")*"@ + n + "); "@) + values::stores_text(parts, parts.len()) + ("(Vec_"@
                            + ctypes::ty_key(
                        cx.sym,
                        *elem,
                    ) + "){ .data = __d, .len = "@ + n + ", .cap = "@ + n + " }"@) + "; }))"@
                },
                HType::Heap { .. } => true,
                _ => text == list,
            }
        }),
{
    reveal(lowered::expr_c);
    let parts = lowered::exprs_c(d, cx, st, es, 0, es@.len()).texts;
    let n = text::decimal(parts.len() as int);
    if let HType::Vec { elem } = ty {
        if parts.len() > 0 {
            lemma_vec_literal_text(
                ctypes::ty_c(cx.sym, *elem),
                n,
                values::stores_text(parts, parts.len()),
                ctypes::ty_key(cx.sym, *elem),
            );
        }
    }
}

proof fn lemma_vec_literal_text(c: Seq<char>, n: Seq<char>, s: Seq<char>, k: Seq<char>)
    ensures
        "(__extension__ ({ "@ + c + "* __d = ("@ + c + "*)malloc(sizeof("@ + c + ")*"@ + n + "); "@
            + s
            + "(Vec_"@ + k + "){ .data = __d, .len = "@ + n + ", .cap = "@ + n + " }; }))"@
            == "(__extension__ ({ "@ + (c + "* __d = ("@ + c + "*)malloc(sizeof("@ + c + ")*"@ + n
            + "); "@) + s + ("(Vec_"@ + k + "){ .data = __d, .len = "@ + n + ", .cap = "@ + n
                + " }"@)
            + "; }))"@,
{
    broadcast use pieces::lemma_put_together;

    reveal_strlit(" }; }))");
    reveal_strlit(" }");
    reveal_strlit("; }))");
    assert(" }; }))"@ =~= " }"@ + "; }))"@);
}

/// The number that is read back from the position in a store.
pub proof fn law_elements_are_stored_in_order(parts: Seq<Seq<char>>, i: int)
    requires
        0 <= i < parts.len(),
    ensures
        values::stores_text(parts, (i + 1) as nat) == values::stores_text(parts, i as nat)
            + ("__d["@ + text::decimal(i)
            + "] = "@ + parts[i] + "; "@),
        values::stores_text(parts, 0) == ""@,
        operator_laws::number_value(text::decimal(i)) == i,
{
    operator_laws::law_decimal_reads_back(i);
}

/// `alloc` makes memory for its value, fills it and gives its address: a cell for a value, and
/// room for all elements of a fixed array.
pub proof fn law_alloc_makes_and_fills(d: nat, cx: Cx, st: St, x: HExpr, ty: HType)
    ensures
        ({
            let text = lowered::expr_c(d, cx, st,
                value_laws::an_expr(HExprKind::HeapAlloc(Box::new(x)), ty)).text;
            let v = lowered::expr_c(d, cx, st, x).text;
            match x.ty {
                HType::Array { len, elem } => {
                    let c = ctypes::ty_c(cx.sym, *elem);
                    let n = text::decimal(len as int);
                    let room = c + "* __d = ("@ + c + "*)malloc(sizeof("@ + c + ")*"@ + n + "); "@;
                    match x.kind {
                        HExprKind::ArrayLit(es) => {
                            let parts = lowered::exprs_c(d, cx, st, es, 0, es@.len()).texts;
                            text == "(__extension__ ({ "@ + room + values::stores_text(parts,
                                parts.len())
                                + "__d; }))"@
                        },
                        _ => text == "(__extension__ ({ "@ + (c + " __s["@ + n + "] = "@ + v
                            + "; "@)
                            + room + ("for (size_t __i=0;__i<(size_t)"@ + n
                            + ";__i++) __d[__i]=__s[__i]; "@) + "__d; }))"@,
                    }
                },
                _ => {
                    let c = ctypes::ty_c(cx.sym, x.ty);
                    text == "(__extension__ ({ "@ + (c + "* __p = ("@ + c + "*)malloc(sizeof("@ + c
                        + ")); "@) + ("*__p = ("@ + v + "); "@) + "__p; }))"@
                },
            }
        }),
        lowered::expr_c(d, cx, st, value_laws::an_expr(HExprKind::Free(Box::new(x)), ty)).text
            == "(free((void*)("@
            + lowered::expr_c(d, cx, st, x).text + ")), MAKA_UNIT)"@,
{
    reveal(lowered::expr_c);
    let v = lowered::expr_c(d, cx, st, x).text;
    match x.ty {
        HType::Array { len, elem } => {
            let c = ctypes::ty_c(cx.sym, *elem);
            let n = text::decimal(len as int);
            match x.kind {
                HExprKind::ArrayLit(es) => {
                    let parts = lowered::exprs_c(d, cx, st, es, 0, es@.len()).texts;
                    let s = values::stores_text(parts, parts.len());
                    lemma_fill_text(c, n, s);
                },
                _ => {
                    lemma_copy_text(c, n, v);
                },
            }
        },
        _ => {
            lemma_cell_text(ctypes::ty_c(cx.sym, x.ty), v);
        },
    }
}

proof fn lemma_fill_text(c: Seq<char>, n: Seq<char>, s: Seq<char>)
    ensures
        "(__extension__ ({ "@ + c + "* __d = ("@ + c + "*)malloc(sizeof("@ + c + ")*"@ + n + "); "@
            + s
            + "__d; }))"@ == "(__extension__ ({ "@ + (c + "* __d = ("@ + c + "*)malloc(sizeof("@ + c
            + ")*"@ + n + "); "@) + s + "__d; }))"@,
{
    broadcast use pieces::lemma_put_together;

}

proof fn lemma_copy_text(c: Seq<char>, n: Seq<char>, v: Seq<char>)
    ensures
        "(__extension__ ({ "@ + c + " __s["@ + n + "] = "@ + v + "; "@ + c + "* __d = ("@ + c
            + "*)malloc(sizeof("@ + c + ")*"@ + n + "); for (size_t __i=0;__i<(size_t)"@ + n
            + ";__i++) __d[__i]=__s[__i]; __d; }))"@ == "(__extension__ ({ "@ + (c + " __s["@ + n
            + "] = "@ + v + "; "@) + (c + "* __d = ("@ + c + "*)malloc(sizeof("@ + c + ")*"@ + n
            + "); "@) + ("for (size_t __i=0;__i<(size_t)"@ + n + ";__i++) __d[__i]=__s[__i]; "@)
            + "__d; }))"@,
{
    broadcast use pieces::lemma_put_together;

    reveal_strlit("); for (size_t __i=0;__i<(size_t)");
    reveal_strlit("); ");
    reveal_strlit("for (size_t __i=0;__i<(size_t)");
    reveal_strlit(";__i++) __d[__i]=__s[__i]; __d; }))");
    reveal_strlit(";__i++) __d[__i]=__s[__i]; ");
    reveal_strlit("__d; }))");
    assert("); for (size_t __i=0;__i<(size_t)"@ =~= "); "@ + "for (size_t __i=0;__i<(size_t)"@);
    assert(";__i++) __d[__i]=__s[__i]; __d; }))"@ =~= ";__i++) __d[__i]=__s[__i]; "@ + "__d; }))"@);
}

proof fn lemma_cell_text(c: Seq<char>, v: Seq<char>)
    ensures
        "(__extension__ ({ "@ + c + "* __p = ("@ + c + "*)malloc(sizeof("@ + c + ")); *__p = ("@ + v
            + "); __p; }))"@ == "(__extension__ ({ "@ + (c + "* __p = ("@ + c + "*)malloc(sizeof("@
                + c
            + ")); "@) + ("*__p = ("@ + v + "); "@) + "__p; }))"@,
{
    broadcast use pieces::lemma_put_together;

    reveal_strlit(")); *__p = (");
    reveal_strlit(")); ");
    reveal_strlit("*__p = (");
    reveal_strlit("); __p; }))");
    reveal_strlit("); ");
    reveal_strlit("__p; }))");
    assert(")); *__p = ("@ =~= ")); "@ + "*__p = ("@);
    assert("); __p; }))"@ =~= "); "@ + "__p; }))"@);
}

/// The values that a checked cast accepts: exactly the tags of the enum.
pub open spec fn tag_pieces(e: EnumInfo) -> Seq<Piece> {
    Seq::new(
        e.variants@.len(),
        |i: int|
            pieces::binary(
                "=="@,
                pieces::a_name("__v"@),
                pieces::constant(text::decimal(e.variants@[i].tag as int),
                    Val::Num(e.variants@[i].tag as int)),
            ),
    )
}

proof fn lemma_tag_pieces(e: EnumInfo)
    ensures
        e.variants@.len() > 0 ==> operators::tag_test(e)
            == text::joined(pieces::texts_of(tag_pieces(e)), " || "@),
        e.variants@.len() == 0 ==> operators::tag_test(e) == "0"@,
{
    reveal_strlit("__v == ");
    reveal_strlit("__v");
    reveal_strlit(" ");
    reveal_strlit("==");
    assert("__v == "@ =~= "__v"@ + " "@ + "=="@ + " "@);
    let n = e.variants@.len();
    assert forall|i: int| 0 <= i < n implies operators::tag_tests(e, n)[i]
        == #[trigger] pieces::texts_of(
        tag_pieces(e),
    )[i] by {
        let t = text::decimal(e.variants@[i].tag as int);
        assert("__v"@ + " "@ + "=="@ + " "@ + t == "__v == "@ + t);
    }
    assert(operators::tag_tests(e, n) =~= pieces::texts_of(tag_pieces(e)));
}

/// One of the tests holds exactly where the number is a tag of the enum.
pub proof fn law_tag_tests_accept_the_tags(e: EnumInfo, w: World, v: int)
    requires
        w.names.dom().contains("__v"@),
        w.names["__v"@] == Val::Num(v),
    ensures
        (exists|i: int|
            0 <= i < tag_pieces(e).len()
                && pieces::number((#[trigger] tag_pieces(e)[i].value)(w)) != 0)
            <==> (exists|i: int| 0 <= i < e.variants@.len() && (#[trigger] e.variants@[i]).tag
                == v),
        e.variants@.len() > 0 ==> operators::tag_test(e)
            == text::joined(pieces::texts_of(tag_pieces(e)), " || "@),
        e.variants@.len() == 0 ==> operators::tag_test(e) == "0"@,
{
    lemma_tag_pieces(e);
    reveal_strlit("==");
    assert forall|i: int| 0 <= i < e.variants@.len() implies pieces::number(
        (#[trigger] tag_pieces(e)[i].value)(w),
    ) == pieces::truth(v == e.variants@[i].tag) by {
        assert("=="@.len() == 2 && "=="@[0] == '=');
    }
    if exists|i: int| 0 <= i < e.variants@.len() && (#[trigger] e.variants@[i]).tag == v {
        let i = choose|i: int| 0 <= i < e.variants@.len() && (#[trigger] e.variants@[i]).tag == v;
        assert(pieces::number((tag_pieces(e)[i].value)(w)) != 0);
    }
}

/// A cast to an enum panics unless the number is one of its tags, and a cast of a pointer to a
/// number gives null then; other casts are C's.
pub proof fn law_casts(sym: SymTab, s: Seq<char>, kind: CastKind, to: HType)
    ensures
        ({
            let text = operators::cast_text(sym, s, kind, to);
            let plain = pieces::paren(pieces::cast(ctypes::ty_c(sym, to), pieces::constant(s,
                Val::Odd))).text;
            match kind {
                CastKind::IntToEnumChecked => match to {
                    HType::Enum(id) => {
                        let e = sym.the_enum(id);
                        let v = pieces::a_name("__v"@);
                        text == "(__extension__ ({ "@ + ("maka_int __v = ("@ + s + "); "@)
                            + ("if (!("@
                            + operators::tag_test(e) + ")) { maka_panic(\"`int as "@ + e.name@
                            + "`: tag out of range\"); } "@) + pieces::cast(text::ident(e.name@),
                                v).text + "; }))"@
                    },
                    _ => text == plain,
                },
                CastKind::IntPtrToEnumPtrChecked => match to {
                    HType::Ptr { inner, .. } => match *inner {
                        HType::Enum(id) => {
                            let e = sym.the_enum(id);
                            let t = text::ident(e.name@) + "*"@;
                            text == "(__extension__ ({ "@ + ("maka_int* __p = ("@ + s + "); "@)
                                + "maka_int __v = *__p; "@ + ("("@ + operators::tag_test(e) + ")"@)
                                    + " ? "@ + pieces::cast(
                                t,
                                pieces::a_name("__p"@),
                            ).text + " : "@ + pieces::cast(t, pieces::constant("0"@,
                                Val::Num(0))).text + "; }))"@
                        },
                        _ => text == plain,
                    },
                    _ => text == plain,
                },
                CastKind::Reinterpret => text == pieces::paren(
                    pieces::cast(
                        ctypes::ty_c(sym, to),
                        pieces::cast("uintptr_t"@, pieces::paren(pieces::constant(s, Val::Odd))),
                    ),
                ).text,
                _ => text == plain,
            }
        }),
{
    let c = ctypes::ty_c(sym, to);
    lemma_plain_cast(c, s);
    if let HType::Enum(id) = to {
        let e = sym.the_enum(id);
        lemma_enum_cast(s, operators::tag_test(e), e.name@, text::ident(e.name@));
    }
    if let HType::Ptr { inner, .. } = to {
        if let HType::Enum(id) = *inner {
            let e = sym.the_enum(id);
            lemma_enum_ptr_cast(s, operators::tag_test(e), text::ident(e.name@));
        }
    }
}

proof fn lemma_plain_cast(c: Seq<char>, s: Seq<char>)
    ensures
        "(("@ + c + ")"@ + s + ")"@ == pieces::paren(pieces::cast(c, pieces::constant(s,
            Val::Odd))).text,
        "(("@ + c + ")(uintptr_t)("@ + s + "))"@ == pieces::paren(
            pieces::cast(c, pieces::cast("uintptr_t"@, pieces::paren(pieces::constant(s,
                Val::Odd)))),
        ).text,
{
    broadcast use pieces::lemma_put_together;

    reveal_strlit("((");
    reveal_strlit("(");
    reveal_strlit(")(uintptr_t)(");
    reveal_strlit(")");
    reveal_strlit("uintptr_t");
    reveal_strlit("))");
    assert("(("@ =~= "("@ + "("@);
    assert(")(uintptr_t)("@ =~= ")"@ + "("@ + "uintptr_t"@ + ")"@ + "("@);
    assert("))"@ =~= ")"@ + ")"@);
}

proof fn lemma_enum_cast(s: Seq<char>, t: Seq<char>, n: Seq<char>, c: Seq<char>)
    ensures
        "(__extension__ ({ maka_int __v = ("@ + s + "); if (!("@ + t + ")) { maka_panic(\"`int as "@
            + n
            + "`: tag out of range\"); } ("@ + c + ")__v; }))"@ == "(__extension__ ({ "@ + (
        "maka_int __v = ("@ + s + "); "@) + ("if (!("@ + t + ")) { maka_panic(\"`int as "@ + n
            + "`: tag out of range\"); } "@) + pieces::cast(c, pieces::a_name("__v"@)).text
                + "; }))"@,
{
    broadcast use pieces::lemma_put_together;

    reveal_strlit("(__extension__ ({ maka_int __v = (");
    reveal_strlit("(__extension__ ({ ");
    reveal_strlit("maka_int __v = (");
    reveal_strlit("); if (!(");
    reveal_strlit("); ");
    reveal_strlit("if (!(");
    reveal_strlit("`: tag out of range\"); } (");
    reveal_strlit("`: tag out of range\"); } ");
    reveal_strlit("(");
    reveal_strlit(")__v; }))");
    reveal_strlit(")");
    reveal_strlit("__v");
    reveal_strlit("; }))");
    assert("(__extension__ ({ maka_int __v = ("@ =~= "(__extension__ ({ "@ + "maka_int __v = ("@);
    assert("); if (!("@ =~= "); "@ + "if (!("@);
    assert("`: tag out of range\"); } ("@ =~= "`: tag out of range\"); } "@ + "("@);
    assert(")__v; }))"@ =~= ")"@ + "__v"@ + "; }))"@);
}

proof fn lemma_enum_ptr_cast(s: Seq<char>, t: Seq<char>, c: Seq<char>)
    ensures
        "(__extension__ ({ maka_int* __p = ("@ + s + "); maka_int __v = *__p; ("@ + t + ") ? ("@ + c
            + "*)__p : ("@ + c + "*)0; }))"@ == "(__extension__ ({ "@ + ("maka_int* __p = ("@ + s
            + "); "@) + "maka_int __v = *__p; "@ + ("("@ + t + ")"@) + " ? "@ + pieces::cast(
            c + "*"@,
            pieces::a_name("__p"@),
        ).text + " : "@ + pieces::cast(c + "*"@, pieces::constant("0"@, Val::Num(0))).text
            + "; }))"@,
{
    broadcast use pieces::lemma_put_together;

    reveal_strlit("(__extension__ ({ maka_int* __p = (");
    reveal_strlit("(__extension__ ({ ");
    reveal_strlit("maka_int* __p = (");
    reveal_strlit("); maka_int __v = *__p; (");
    reveal_strlit("); ");
    reveal_strlit("maka_int __v = *__p; ");
    reveal_strlit("(");
    reveal_strlit(") ? (");
    reveal_strlit(")");
    reveal_strlit(" ? ");
    reveal_strlit("*)__p : (");
    reveal_strlit("*");
    reveal_strlit("__p");
    reveal_strlit(" : ");
    reveal_strlit("*)0; }))");
    reveal_strlit("0");
    reveal_strlit("; }))");
    assert("(__extension__ ({ maka_int* __p = ("@ =~= "(__extension__ ({ "@ + "maka_int* __p = ("@);
    assert("); maka_int __v = *__p; ("@ =~= "); "@ + "maka_int __v = *__p; "@ + "("@);
    assert(") ? ("@ =~= ")"@ + " ? "@ + "("@);
    assert("*)__p : ("@ =~= "*"@ + ")"@ + "__p"@ + " : "@ + "("@);
    assert("*)0; }))"@ =~= "*"@ + ")"@ + "0"@ + "; }))"@);
}

/// A cast in an expression is that cast of the lowered value.
pub proof fn law_cast_of_a_value(
    d: nat,
    cx: Cx,
    st: St,
    x: HExpr,
    kind: CastKind,
    to: HType,
    ty: HType,
)
    requires
        !(kind is ToDyn),
    ensures
        lowered::expr_c(d, cx, st, value_laws::an_expr(HExprKind::Cast { expr: Box::new(x), kind,
            to }, ty)).text
            == operators::cast_text(cx.sym, lowered::expr_c(d, cx, st, x).text, kind, to),
        lowered::expr_c(d, cx, st, value_laws::an_expr(HExprKind::CheckedCast { expr: Box::new(x),
            kind, to }, ty)).text
            == operators::cast_text(cx.sym, lowered::expr_c(d, cx, st, x).text, kind, to),
{
    reveal(lowered::expr_c);
}

/// How a value is handed to `printf` and logged: as its type is, a truth value by its name.
pub proof fn law_values_are_printed_by_type(t: HType, s: Piece)
    ensures
        t is Bool ==> operators::printf_text(s.text, t) == pieces::paren(
            pieces::pick(
                pieces::paren(s),
                pieces::constant("\"true\""@, Val::Odd),
                pieces::constant("\"false\""@, Val::Odd),
            ),
        ).text && operators::log_name(t) == "maka_log_bool"@,
        t is Char ==> operators::printf_text(s.text, t) == pieces::cast("int"@,
            pieces::paren(s)).text && operators::log_name(t)
            == "maka_log_char"@,
        t is Int || t is SizedInt ==> operators::printf_text(s.text, t)
            == pieces::cast("long long"@, pieces::paren(s)).text
            && operators::log_name(t) == "maka_log_int"@,
        t is Float || t is SizedFloat ==> operators::printf_text(s.text, t)
            == pieces::cast("double"@, pieces::paren(s)).text
            && operators::log_name(t) == "maka_log_float"@,
        t is Str ==> operators::printf_text(s.text, t) == s.text && operators::log_name(t)
            == "maka_log_str"@,
        t is Enum ==> operators::log_name(t) == "maka_log_int"@,
        data_laws::any_pointer(t) ==> operators::log_name(t) == "maka_log_ptr"@,
{
    broadcast use pieces::lemma_put_together;

    reveal_strlit("((");
    reveal_strlit("(");
    reveal_strlit(") ? \"true\" : \"false\")");
    reveal_strlit(")");
    reveal_strlit(" ? ");
    reveal_strlit("\"true\"");
    reveal_strlit(" : ");
    reveal_strlit("\"false\"");
    reveal_strlit("(int)(");
    reveal_strlit("int");
    reveal_strlit("(long long)(");
    reveal_strlit("long long");
    reveal_strlit("(double)(");
    reveal_strlit("double");
    assert("(("@ =~= "("@ + "("@);
    assert(") ? \"true\" : \"false\")"@ =~= ")"@ + " ? "@ + "\"true\""@ + " : "@ + "\"false\""@
        + ")"@);
    assert("(int)("@ =~= "("@ + "int"@ + ")"@ + "("@);
    assert("(long long)("@ =~= "("@ + "long long"@ + ")"@ + "("@);
    assert("(double)("@ =~= "("@ + "double"@ + ")"@ + "("@);
}

} // verus!
