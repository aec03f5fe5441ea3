//! What lowered expressions are worth.
//!
//! Each law takes pieces that stand for the lowered operands: any values with their texts. The
//! text of the whole is then that of a piece, and the value of that piece is what the
//! expression means.
use vstd::prelude::*;

use crate::builtins;
use crate::context::{Cx, Outs, St};
use crate::ctypes;
use crate::hir::{EnumInfo, FuncId, HBinOp, HExpr, HExprKind, HType, HUnOp, SymTab};
use crate::lowered;
use crate::operator_laws;
use crate::operators;
use crate::operators::NOT_CONSTANT;
use crate::pieces;
use crate::pieces::{Piece, Val, World};
use crate::text;
use crate::validity;
use crate::values;

verus! {

/// The expression of this kind and type.
pub open spec fn an_expr(kind: HExprKind, ty: HType) -> HExpr {
    HExpr { kind, ty }
}

/// Some variant of the enum carries values.
pub open spec fn some_values(e: EnumInfo) -> bool {
    exists|i: int| 0 <= i < e.variants@.len() && (#[trigger] e.variants@[i]).fields@.len() > 0
}

/// An enum of which some variant carries values.
pub open spec fn carries_values(sym: SymTab, t: HType) -> bool {
    match t {
        HType::Enum(id) => some_values(sym.the_enum(id)),
        _ => false,
    }
}

/// An operation computes its operator on the values of its operands, the left one first. Two
/// values of one enum with payloads are compared by their tags.
pub proof fn law_operation_computes(
    d: nat,
    cx: Cx,
    st: St,
    op: HBinOp,
    lhs: HExpr,
    rhs: HExpr,
    ty: HType,
    l: Piece,
    r: Piece,
)
    requires
        l.text == lowered::expr_c(d, cx, st, lhs).text,
        r.text == lowered::expr_c(d, cx, lowered::expr_c(d, cx, st, lhs).st, rhs).text,
    ensures
        ({
            let e = an_expr(
                HExprKind::Bin { op, lhs: Box::new(lhs), rhs: Box::new(rhs) },
                ty,
            );
            let by_tag = (op is Eq || op is Ne) && lhs.ty == rhs.ty && carries_values(cx.sym,
                lhs.ty);
            let (a, b) = if by_tag {
                (pieces::dot(pieces::paren(l), "tag"@), pieces::dot(pieces::paren(r), "tag"@))
            } else {
                (pieces::paren(l), pieces::paren(r))
            };
            let whole = pieces::paren(pieces::binary(operators::binop_text(op), a, b));
            &&& lowered::expr_c(d, cx, st, e).text == whole.text
            &&& lowered::expr_c(d, cx, st, e).st == lowered::expr_c(d, cx, lowered::expr_c(d, cx,
                st, lhs).st, rhs).st
            &&& forall|w: World| #[trigger]
                (whole.value)(w) == Val::Num(
                    operator_laws::op_value(op, pieces::number((a.value)(w)),
                        pieces::number((b.value)(w))),
                )
        }),
{
    reveal(lowered::expr_c);
    reveal_strlit("((");
    reveal_strlit(").tag ");
    reveal_strlit(" (");
    reveal_strlit(").tag)");
    reveal_strlit(") ");
    reveal_strlit("))");
    reveal_strlit("(");
    reveal_strlit(")");
    reveal_strlit(".");
    reveal_strlit(" ");
    reveal_strlit("tag");
    let e = an_expr(HExprKind::Bin { op, lhs: Box::new(lhs), rhs: Box::new(rhs) }, ty);
    let by_tag = (op is Eq || op is Ne) && lhs.ty == rhs.ty && carries_values(cx.sym, lhs.ty);
    let (a, b) = if by_tag {
        (pieces::dot(pieces::paren(l), "tag"@), pieces::dot(pieces::paren(r), "tag"@))
    } else {
        (pieces::paren(l), pieces::paren(r))
    };
    let whole = pieces::paren(pieces::binary(operators::binop_text(op), a, b));
    assert forall|w: World| #[trigger]
        (whole.value)(w) == Val::Num(
            operator_laws::op_value(op, pieces::number((a.value)(w)), pieces::number((b.value)(w))),
        ) by {
        operator_laws::law_operator_means_itself(op, pieces::number((a.value)(w)),
            pieces::number((b.value)(w)));
    }
    assert(lowered::expr_c(d, cx, st, e).text =~= whole.text);
}

/// Negation and denial of the operand's value.
pub proof fn law_unary_computes(
    d: nat,
    cx: Cx,
    st: St,
    op: HUnOp,
    x: HExpr,
    ty: HType,
    p: Piece,
)
    requires
        p.text == lowered::expr_c(d, cx, st, x).text,
    ensures
        ({
            let e = an_expr(HExprKind::Un { op, expr: Box::new(x) }, ty);
            let whole = match op {
                HUnOp::Neg => pieces::paren(pieces::negated(pieces::paren(p))),
                HUnOp::Not => pieces::paren(pieces::denied(pieces::paren(p))),
            };
            &&& lowered::expr_c(d, cx, st, e).text == whole.text
            &&& forall|w: World| #[trigger]
                (whole.value)(w) == Val::Num(
                    match op {
                        HUnOp::Neg => -pieces::number((p.value)(w)),
                        HUnOp::Not => pieces::truth(pieces::number((p.value)(w)) == 0),
                    },
                )
        }),
{
    reveal(lowered::expr_c);
    reveal_strlit("(-(");
    reveal_strlit("))");
    reveal_strlit("(!(");
    reveal_strlit("(");
    reveal_strlit(")");
    reveal_strlit("-");
    reveal_strlit("!");
    let e = an_expr(HExprKind::Un { op, expr: Box::new(x) }, ty);
    assert(lowered::expr_c(d, cx, st, e).text =~= (match op {
        HUnOp::Neg => pieces::paren(pieces::negated(pieces::paren(p))),
        HUnOp::Not => pieces::paren(pieces::denied(pieces::paren(p))),
    }).text);
}

/// A literal is written alike wherever it stands: in an expression, as the pattern of a match
/// arm and as the initial value of a global.
pub proof fn law_literals_are_written_alike(d: nat, cx: Cx, st: St, e: HExpr)
    requires
        e.kind is LitInt || e.kind is LitBool || e.kind is LitChar || e.kind is LitFloat
            || e.kind is LitNull,
    ensures
        lowered::expr_c(d, cx, st, e).text == operators::literal_text(e),
        operators::global_init_text(e) == operators::literal_text(e),
        lowered::expr_c(d, cx, st, e).st == st,
        match e.kind {
            HExprKind::LitInt(n) => operators::literal_text(e) == operators::int_text(n),
            HExprKind::LitBool(b) => operators::literal_text(e) == operators::bool_text(b),
            HExprKind::LitChar(c) => operators::literal_text(e) == operators::char_text(c),
            HExprKind::LitFloat(v) => text::begins(operators::literal_text(e), "(maka_float)"@)
                && operators::literal_text(e).skip("(maka_float)"@.len() as int) == v@,
            _ => operators::literal_text(e) == "NULL"@,
        },
{
    reveal(lowered::expr_c);
    if let HExprKind::LitFloat(v) = e.kind {
        reveal_strlit("(maka_float)");
        let t = operators::float_text(v@);
        assert(t.skip("(maka_float)"@.len() as int) =~= v@);
        assert(t.take("(maka_float)"@.len() as int) =~= "(maka_float)"@);
    }
}

/// An expression over literals alone, with types that C compares by value.
pub open spec fn is_constant(e: HExpr) -> bool
    decreases e,
{
    match e.kind {
        HExprKind::LitInt(_) | HExprKind::LitBool(_) | HExprKind::LitChar(_)
        | HExprKind::LitFloat(_) | HExprKind::LitNull | HExprKind::LitStr(_)
        | HExprKind::LitUnit => true,
        HExprKind::Un { op, expr } => op is Neg && is_constant(*expr),
        HExprKind::Bin { lhs, rhs, .. } => !(lhs.ty is Enum) && is_constant(*lhs) && is_constant(
            *rhs,
        ),
        _ => false,
    }
}

/// The initial value of a global is written as the same expression is in a function, and
/// whatever is no constant becomes a name that C refuses.
pub proof fn law_globals_start_with_their_value(d: nat, cx: Cx, st: St, e: HExpr)
    ensures
        is_constant(e) ==> operators::global_init_text(e) == lowered::expr_c(d, cx, st, e).text
            && lowered::expr_c(
            d,
            cx,
            st,
            e,
        ).st == st,
        !(e.kind is Bin) && !(e.kind is Un && e.kind->Un_op is Neg) && !is_constant(e)
            ==> operators::global_init_text(e) == NOT_CONSTANT@,
    decreases e,
{
    reveal(lowered::expr_c);
    match e.kind {
        HExprKind::Un { op, expr } => {
            law_globals_start_with_their_value(d, cx, st, *expr);
            reveal_strlit("(-(");
            reveal_strlit("))");
            reveal_strlit("(!(");
            reveal_strlit("NULL");
            reveal_strlit("MAKA_UNIT");
            reveal_strlit("((");
            reveal_strlit(") ");
            reveal_strlit(" (");
            if is_constant(e) {
                assert(operators::global_init_text(e) =~= lowered::expr_c(d, cx, st, e).text);
            }
        },
        HExprKind::Bin { op, lhs, rhs } => {
            law_globals_start_with_their_value(d, cx, st, *lhs);
            law_globals_start_with_their_value(d, cx, st, *rhs);
            if is_constant(e) {
                assert(operators::global_init_text(e) =~= lowered::expr_c(d, cx, st, e).text);
            }
        },
        _ => {},
    }
}

/// Lowered expressions in a row are those of the row, in its order.
pub proof fn law_expressions_in_order(
    d: nat,
    cx: Cx,
    st: St,
    v: Vec<HExpr>,
    from: nat,
    n: nat,
    i: int,
)
    requires
        from <= i < n <= v@.len(),
    ensures
        lowered::exprs_c(d, cx, st, v, from, n).texts.len() == n - from,
        lowered::exprs_c(d, cx, st, v, from, n).texts[i - from] == lowered::expr_c(
            d,
            cx,
            lowered::exprs_c(d, cx, st, v, from, i as nat).st,
            v@[i],
        ).text,
        lowered::exprs_c(d, cx, st, v, from, (i + 1) as nat).st == lowered::expr_c(
            d,
            cx,
            lowered::exprs_c(d, cx, st, v, from, i as nat).st,
            v@[i],
        ).st,
        lowered::exprs_c(d, cx, st, v, from, from) == (Outs { texts: Seq::empty(), st }),
    decreases n,
{
    reveal(lowered::expr_c);
    if i < n - 1 {
        law_expressions_in_order(d, cx, st, v, from, (n - 1) as nat, i);
    } else if from < n - 1 {
        law_expressions_in_order(d, cx, st, v, from, (n - 1) as nat, n - 2);
    } else {
        assert(lowered::exprs_c(d, cx, st, v, from, (n - 1) as nat).texts.len() == 0);
    }
}

/// Joined texts stand in their order, with the separator between neighbours and nowhere else.
pub proof fn law_joined_keeps_order(a: Seq<Seq<char>>, b: Seq<Seq<char>>, sep: Seq<char>)
    requires
        a.len() > 0,
        b.len() > 0,
    ensures
        text::joined(a + b, sep) == text::joined(a, sep) + sep + text::joined(b, sep),
        a.len() == 1 ==> text::joined(a, sep) == a[0],
        text::joined(Seq::empty(), sep) == Seq::<char>::empty(),
    decreases b.len(),
{
    let all = a + b;
    assert(all.drop_last() =~= a + b.drop_last());
    assert(all.last() == b.last());
    if b.len() == 1 {
        assert(a + b.drop_last() =~= a);
    } else {
        law_joined_keeps_order(a, b.drop_last(), sep);
        assert(text::joined(all, sep) =~= text::joined(a, sep) + sep + text::joined(b, sep));
    }
}

proof fn lemma_env_first(args: Seq<Seq<char>>, n: nat)
    requires
        n <= args.len(),
    ensures
        values::env_args(args, n) == text::joined(seq!["__c.env"@] + args.take(n as int), ", "@),
    decreases n,
{
    let all = seq!["__c.env"@] + args.take(n as int);
    if n == 0 {
        assert(all =~= seq!["__c.env"@]);
    } else {
        lemma_env_first(args, (n - 1) as nat);
        assert(all.drop_last() =~= seq!["__c.env"@] + args.take(n - 1));
        assert(all.last() == args[n - 1]);
    }
}

proof fn lemma_indirect_words()
    ensures
        "(__extension__ ({ Callable_"@ == "(__extension__ ({ "@ + "Callable_"@,
        " __c = ("@ == " "@ + "__c"@ + " = "@ + "("@,
        "); __c.code("@ == ")"@ + "; "@ + "__c"@ + "."@ + "code"@ + "("@,
        "__c.env"@ == "__c"@ + "."@ + "env"@,
        ", MAKA_UNIT"@ == ", "@ + "MAKA_UNIT"@,
        "; }))"@ == "; "@ + "}))"@,
{
    reveal_strlit("(__extension__ ({ Callable_");
    reveal_strlit("(__extension__ ({ ");
    reveal_strlit("Callable_");
    reveal_strlit(" __c = (");
    reveal_strlit(" ");
    reveal_strlit("__c");
    reveal_strlit(" = ");
    reveal_strlit("(");
    reveal_strlit("); __c.code(");
    reveal_strlit(")");
    reveal_strlit("; ");
    reveal_strlit(".");
    reveal_strlit("code");
    reveal_strlit("__c.env");
    reveal_strlit("env");
    reveal_strlit(", MAKA_UNIT");
    reveal_strlit(", ");
    reveal_strlit("MAKA_UNIT");
    reveal_strlit("; }))");
    reveal_strlit("}))");
    assert("(__extension__ ({ Callable_"@ =~= "(__extension__ ({ "@ + "Callable_"@);
    assert(" __c = ("@ =~= " "@ + "__c"@ + " = "@ + "("@);
    assert("); __c.code("@ =~= ")"@ + "; "@ + "__c"@ + "."@ + "code"@ + "("@);
    assert("__c.env"@ =~= "__c"@ + "."@ + "env"@);
    assert(", MAKA_UNIT"@ =~= ", "@ + "MAKA_UNIT"@);
    assert("; }))"@ =~= "; "@ + "}))"@);
}


proof fn lemma_indirect_text(key: Seq<char>, f: Seq<char>, list: Seq<char>, tail: Seq<char>)
    ensures
        "(__extension__ ({ Callable_"@ + key + " __c = ("@ + f + "); __c.code("@ + list + ")"@
            + tail
            + "; }))"@ == "(__extension__ ({ "@ + ("Callable_"@ + key + " "@ + "__c"@ + " = "@
                + ("("@
            + f + ")"@) + "; "@ + ("__c"@ + "."@ + "code"@ + "("@ + list + ")"@ + tail + "; "@))
            + "}))"@,
{
    lemma_indirect_words();
    assert("(__extension__ ({ Callable_"@ + key + " __c = ("@ + f + "); __c.code("@ + list + ")"@
        + tail + "; }))"@ =~= "(__extension__ ({ "@ + ("Callable_"@ + key + " "@ + "__c"@ + " = "@
            + (
    "("@ + f + ")"@) + "; "@ + ("__c"@ + "."@ + "code"@ + "("@ + list + ")"@ + tail + "; "@))
        + "}))"@);
}

/// A call through a function value takes its code and gives it the environment and then the
/// arguments, in their order. The function value is computed once.
pub proof fn law_indirect_call_passes_its_arguments(
    d: nat,
    cx: Cx,
    st: St,
    callee: HExpr,
    args: Vec<HExpr>,
    ty: HType,
    f: Piece,
    a: Seq<Piece>,
)
    requires
        callee.ty is FnPtr,
        f.text == lowered::expr_c(d, cx, st, callee).text,
        pieces::texts_of(a) == lowered::exprs_c(d, cx, lowered::expr_c(d, cx, st, callee).st, args,
            0, args@.len()).texts,
    ensures
        ({
            let e = an_expr(HExprKind::CallIndirect { callee: Box::new(callee), args }, ty);
            let key = ctypes::sig_key(callee.ty->FnPtr_ret_key@, callee.ty->FnPtr_param_keys@);
            let c = pieces::a_name("__c"@);
            let run = pieces::call(pieces::dot(c, "code"@), seq![pieces::dot(c, "env"@)] + a);
            let gives = if *callee.ty->FnPtr_ret is Unit {
                pieces::then_value(run, pieces::constant("MAKA_UNIT"@, Val::Unit))
            } else {
                run
            };
            let whole = pieces::block_value(pieces::declare("Callable_"@ + key, "__c"@,
                pieces::paren(f), pieces::result(gives)));
            &&& lowered::expr_c(d, cx, st, e).text == whole.text
            &&& forall|w: World|
                {
                    let inner = w.knowing("__c"@, (f.value)(w));
                    &&& #[trigger] (whole.value)(w) == (if *callee.ty->FnPtr_ret is Unit {
                        Val::Unit
                    } else {
                        (w.calls)(
                            pieces::member((f.value)(w), "code"@),
                            seq![pieces::member((f.value)(w), "env"@)] + pieces::values_of(a,
                                inner),
                        )
                    })
                }
        }),
{
    reveal(lowered::expr_c);
    let e = an_expr(HExprKind::CallIndirect { callee: Box::new(callee), args }, ty);
    let key = ctypes::sig_key(callee.ty->FnPtr_ret_key@, callee.ty->FnPtr_param_keys@);
    let c = pieces::a_name("__c"@);
    let all = seq![pieces::dot(c, "env"@)] + a;
    let run = pieces::call(pieces::dot(c, "code"@), all);
    let unit = *callee.ty->FnPtr_ret is Unit;
    let gives = if unit { pieces::then_value(run, pieces::constant("MAKA_UNIT"@,
        Val::Unit)) } else { run };
    let whole = pieces::block_value(pieces::declare("Callable_"@ + key, "__c"@, pieces::paren(f),
        pieces::result(gives)));
    let t = pieces::texts_of(a);
    lemma_env_first(t, t.len());
    lemma_indirect_words();
    assert(t.take(t.len() as int) =~= t);
    assert(pieces::texts_of(all) =~= seq!["__c.env"@] + t);
    let list = text::joined(pieces::texts_of(all), ", "@);
    assert(lowered::expr_c(d, cx, st, e).text == values::indirect_text(callee.ty, f.text, t));
    assert(values::callable_key_text(callee.ty) == key);
    lemma_indirect_text(key, f.text, list, if unit { ", MAKA_UNIT"@ } else { ""@ });
    let tail = if unit { ", MAKA_UNIT"@ } else { ""@ };
    assert(gives.text =~= "__c"@ + "."@ + "code"@ + "("@ + list + ")"@ + tail) by {
        reveal_strlit("");
    }
    assert(pieces::declare("Callable_"@ + key, "__c"@, pieces::paren(f), pieces::result(gives)).text
        == "Callable_"@ + key
        + " "@ + "__c"@ + " = "@ + ("("@ + f.text + ")"@) + "; "@ + ("__c"@ + "."@ + "code"@ + "("@
        + list + ")"@ + tail + "; "@));
    assert forall|w: World| #[trigger] (whole.value)(w) == (if *callee.ty->FnPtr_ret is Unit {
        Val::Unit
    } else {
        (w.calls)(
            pieces::member((f.value)(w), "code"@),
            seq![pieces::member((f.value)(w), "env"@)] + pieces::values_of(a, w.knowing("__c"@,
                (f.value)(w))),
        )
    }) by {
        let inner = w.knowing("__c"@, (f.value)(w));
        assert(pieces::values_of(all, inner) =~= seq![pieces::member((f.value)(w), "env"@)]
            + pieces::values_of(a, inner));
    }
}

/// A direct call passes the arguments in their order to the function of that name; a call
/// without a result is worth the unit value.
pub proof fn law_direct_call_passes_its_arguments(
    d: nat,
    cx: Cx,
    st: St,
    callee: FuncId,
    args: Vec<HExpr>,
    ty: HType,
    a: Seq<Piece>,
)
    requires
        builtins::builtin_of(callee) is None,
        !validity::dispatched(args@),
        pieces::texts_of(a) == lowered::exprs_c(d, cx, st, args, 0, args@.len()).texts,
    ensures
        ({
            let e = an_expr(HExprKind::Call { callee, args }, ty);
            let sig = cx.sym.the_sig(callee);
            let name = if sig.is_extern {
                sig.c_name@
            } else if sig.name@ == "main"@ && sig.logic is None {
                "maka_main"@
            } else {
                text::ident(sig.c_name@)
            };
            let run = pieces::call(pieces::a_name(name), a);
            let whole = if sig.ret is Unit {
                pieces::paren(pieces::then_value(run, pieces::constant("MAKA_UNIT"@, Val::Unit)))
            } else {
                run
            };
            &&& lowered::expr_c(d, cx, st, e).text == whole.text
            &&& forall|w: World| #[trigger]
                (whole.value)(w) == (if sig.ret is Unit {
                    Val::Unit
                } else {
                    (w.calls)((pieces::a_name(name).value)(w), pieces::values_of(a, w))
                })
        }),
{
    reveal(lowered::expr_c);
    reveal(lowered::call_c);
    reveal_strlit("(");
    reveal_strlit(", MAKA_UNIT)");
    reveal_strlit(", ");
    reveal_strlit(")");
    reveal_strlit("MAKA_UNIT");
    let e = an_expr(HExprKind::Call { callee, args }, ty);
    let sig = cx.sym.the_sig(callee);
    let name = ctypes::callee_c(sig);
    let run = pieces::call(pieces::a_name(name), a);
    let whole = if sig.ret is Unit {
        pieces::paren(pieces::then_value(run, pieces::constant("MAKA_UNIT"@, Val::Unit)))
    } else {
        run
    };
    assert(lowered::call_c(d, cx, st, callee, args).text == values::direct_text(sig,
        pieces::texts_of(a)));
    assert(values::direct_text(sig, pieces::texts_of(a)) =~= whole.text);
}

} // verus!
