//! What the built-in functions run.
use vstd::prelude::*;

use crate::builtins;
use crate::builtins::Builtin;
use crate::context::{Cx, Out, St};
use crate::ctypes;
use crate::hir::{FuncId, HExpr, HExprKind, HType, SymTab};
use crate::lowered;
use crate::operators;
use crate::pieces;
use crate::text;
use crate::value_laws;

verus! {

/// `f(a, b, ..)`
pub open spec fn called(f: Seq<char>, args: Seq<Seq<char>>) -> Seq<char> {
    f + "("@ + text::joined(args, ", "@) + ")"@
}

/// `(t)x`
pub open spec fn cast_to(t: Seq<char>, x: Seq<char>) -> Seq<char> {
    "("@ + t + ")"@ + x
}

/// `(x)`
pub open spec fn in_parens(x: Seq<char>) -> Seq<char> {
    "("@ + x + ")"@
}

/// `x.f`
pub open spec fn member_of(x: Seq<char>, f: Seq<char>) -> Seq<char> {
    x + "."@ + f
}

/// The effect of `x` alone.
pub open spec fn as_unit(x: Seq<char>) -> Seq<char> {
    "("@ + x + ", MAKA_UNIT)"@
}

/// Whether `x` is not zero.
pub open spec fn is_nonzero(x: Seq<char>) -> Seq<char> {
    "((bool)("@ + x + " != 0))"@
}

/// `body` with the function value `f` computed once, in `__cb`.
pub open spec fn with_callable(key: Seq<char>, f: Seq<char>, body: Seq<char>) -> Seq<char> {
    "(__extension__ ({ Callable_"@ + key + " __cb = ("@ + f + "); "@ + body + "; }))"@
}

/// A vector over the elements of the slice that `x` gives.
pub open spec fn as_vector(elem: Seq<char>, x: Seq<char>) -> Seq<char> {
    "Slice_"@ + elem + " __s = "@ + x + "; (Vec_"@ + elem
        + "){ .data = __s.ptr, .len = __s.len, .cap = __s.len }"@
}

/// A call with its arguments written out.
pub proof fn lemma_called_1(f: Seq<char>, a0: Seq<char>)
    ensures
        called(f, seq![a0]) == f + "("@ + (a0) + ")"@,
{
    reveal_with_fuel(text::joined, 2);
}

/// A call with its arguments written out.
pub proof fn lemma_called_2(f: Seq<char>, a0: Seq<char>, a1: Seq<char>)
    ensures
        called(f, seq![a0, a1]) == f + "("@ + (a0 + ", "@ + a1) + ")"@,
{
    assert(seq![a0, a1].drop_last() =~= seq![a0]);
    reveal_with_fuel(text::joined, 3);
}

/// A call with its arguments written out.
pub proof fn lemma_called_3(f: Seq<char>, a0: Seq<char>, a1: Seq<char>, a2: Seq<char>)
    ensures
        called(f, seq![a0, a1, a2]) == f + "("@ + (a0 + ", "@ + a1 + ", "@ + a2) + ")"@,
{
    assert(seq![a0, a1, a2].drop_last() =~= seq![a0, a1]);
    assert(seq![a0, a1].drop_last() =~= seq![a0]);
    reveal_with_fuel(text::joined, 4);
}

/// A call with its arguments written out.
pub proof fn lemma_called_4(f: Seq<char>, a0: Seq<char>, a1: Seq<char>, a2: Seq<char>,
    a3: Seq<char>)
    ensures
        called(f, seq![a0, a1, a2, a3]) == f + "("@ + (a0 + ", "@ + a1 + ", "@ + a2 + ", "@ + a3)
            + ")"@,
{
    assert(seq![a0, a1, a2, a3].drop_last() =~= seq![a0, a1, a2]);
    assert(seq![a0, a1, a2].drop_last() =~= seq![a0, a1]);
    assert(seq![a0, a1].drop_last() =~= seq![a0]);
    reveal_with_fuel(text::joined, 5);
}

/// A call with its arguments written out.
pub proof fn lemma_called_5(f: Seq<char>, a0: Seq<char>, a1: Seq<char>, a2: Seq<char>,
    a3: Seq<char>, a4: Seq<char>)
    ensures
        called(f, seq![a0, a1, a2, a3, a4]) == f + "("@ + (a0 + ", "@ + a1 + ", "@ + a2 + ", "@ + a3
            + ", "@ + a4) + ")"@,
{
    assert(seq![a0, a1, a2, a3, a4].drop_last() =~= seq![a0, a1, a2, a3]);
    assert(seq![a0, a1, a2, a3].drop_last() =~= seq![a0, a1, a2]);
    assert(seq![a0, a1, a2].drop_last() =~= seq![a0, a1]);
    assert(seq![a0, a1].drop_last() =~= seq![a0]);
    reveal_with_fuel(text::joined, 6);
}

/// A call with its arguments written out.
pub proof fn lemma_called_6(f: Seq<char>, a0: Seq<char>, a1: Seq<char>, a2: Seq<char>,
    a3: Seq<char>, a4: Seq<char>, a5: Seq<char>)
    ensures
        called(f, seq![a0, a1, a2, a3, a4, a5]) == f + "("@ + (a0 + ", "@ + a1 + ", "@ + a2 + ", "@
            + a3 + ", "@ + a4 + ", "@ + a5) + ")"@,
{
    assert(seq![a0, a1, a2, a3, a4, a5].drop_last() =~= seq![a0, a1, a2, a3, a4]);
    assert(seq![a0, a1, a2, a3, a4].drop_last() =~= seq![a0, a1, a2, a3]);
    assert(seq![a0, a1, a2, a3].drop_last() =~= seq![a0, a1, a2]);
    assert(seq![a0, a1, a2].drop_last() =~= seq![a0, a1]);
    assert(seq![a0, a1].drop_last() =~= seq![a0]);
    reveal_with_fuel(text::joined, 7);
}

proof fn lemma_run_free(t0: Seq<char>)
    ensures
        "(free((void*)("@ + t0 + ")), MAKA_UNIT)"@ == as_unit(called("free"@, seq![cast_to("void*"@,
            in_parens(t0))])),
{
    broadcast use pieces::lemma_put_together;

    reveal_strlit("(free((void*)(");
    reveal_strlit("(");
    reveal_strlit("free");
    reveal_strlit("void*");
    reveal_strlit(")");
    reveal_strlit(")), MAKA_UNIT)");
    reveal_strlit(", MAKA_UNIT)");
    assert("(free((void*)("@ =~= "("@ + "free"@ + "("@ + "("@ + "void*"@ + ")"@ + "("@);
    assert(")), MAKA_UNIT)"@ =~= ")"@ + ")"@ + ", MAKA_UNIT)"@);
    lemma_called_1("free"@, cast_to("void*"@, in_parens(t0)));
}

proof fn lemma_run_panic(t0: Seq<char>)
    ensures
        "(maka_panic("@ + t0 + "), MAKA_UNIT)"@ == as_unit(called("maka_panic"@, seq![t0])),
{
    broadcast use pieces::lemma_put_together;

    reveal_strlit("(maka_panic(");
    reveal_strlit("(");
    reveal_strlit("maka_panic");
    reveal_strlit("), MAKA_UNIT)");
    reveal_strlit(")");
    reveal_strlit(", MAKA_UNIT)");
    assert("(maka_panic("@ =~= "("@ + "maka_panic"@ + "("@);
    assert("), MAKA_UNIT)"@ =~= ")"@ + ", MAKA_UNIT)"@);
    lemma_called_1("maka_panic"@, t0);
}

proof fn lemma_run_spawn(t0: Seq<char>)
    ensures
        "(__extension__ ({ Callable_unit_ __cb = ("@ + t0
            + "); (Thread*)__maka_spawn_fiber(__cb.code, __cb.env); }))"@ == with_callable("unit_"@,
            t0, cast_to("Thread*"@, called("__maka_spawn_fiber"@, seq!["__cb.code"@,
            "__cb.env"@]))),
{
    broadcast use pieces::lemma_put_together;

    reveal_strlit("(__extension__ ({ Callable_unit_ __cb = (");
    reveal_strlit("(__extension__ ({ Callable_");
    reveal_strlit("unit_");
    reveal_strlit(" __cb = (");
    reveal_strlit("); (Thread*)__maka_spawn_fiber(__cb.code, __cb.env); }))");
    reveal_strlit("); ");
    reveal_strlit("(");
    reveal_strlit("Thread*");
    reveal_strlit(")");
    reveal_strlit("__maka_spawn_fiber");
    reveal_strlit("__cb.code");
    reveal_strlit(", ");
    reveal_strlit("__cb.env");
    reveal_strlit("; }))");
    assert("(__extension__ ({ Callable_unit_ __cb = ("@ =~= "(__extension__ ({ Callable_"@
        + "unit_"@ + " __cb = ("@);
    assert("); (Thread*)__maka_spawn_fiber(__cb.code, __cb.env); }))"@ =~= "); "@ + "("@
        + "Thread*"@ + ")"@ + "__maka_spawn_fiber"@ + "("@ + "__cb.code"@ + ", "@ + "__cb.env"@
        + ")"@ + "; }))"@);
    lemma_called_2("__maka_spawn_fiber"@, "__cb.code"@, "__cb.env"@);
}

proof fn lemma_run_join(t0: Seq<char>)
    ensures
        "(__maka_join((maka_unit*)("@ + t0 + ")), MAKA_UNIT)"@ == as_unit(called("__maka_join"@,
            seq![cast_to("maka_unit*"@, in_parens(t0))])),
{
    broadcast use pieces::lemma_put_together;

    reveal_strlit("(__maka_join((maka_unit*)(");
    reveal_strlit("(");
    reveal_strlit("__maka_join");
    reveal_strlit("maka_unit*");
    reveal_strlit(")");
    reveal_strlit(")), MAKA_UNIT)");
    reveal_strlit(", MAKA_UNIT)");
    assert("(__maka_join((maka_unit*)("@ =~= "("@ + "__maka_join"@ + "("@ + "("@ + "maka_unit*"@
        + ")"@ + "("@);
    assert(")), MAKA_UNIT)"@ =~= ")"@ + ")"@ + ", MAKA_UNIT)"@);
    lemma_called_1("__maka_join"@, cast_to("maka_unit*"@, in_parens(t0)));
}

proof fn lemma_run_concat(t0: Seq<char>, t1: Seq<char>)
    ensures
        "__maka_str_concat("@ + t0 + ", "@ + t1 + ")"@ == called("__maka_str_concat"@, seq![t0,
            t1]),
{
    broadcast use pieces::lemma_put_together;

    reveal_strlit("__maka_str_concat(");
    reveal_strlit("__maka_str_concat");
    reveal_strlit("(");
    assert("__maka_str_concat("@ =~= "__maka_str_concat"@ + "("@);
    lemma_called_2("__maka_str_concat"@, t0, t1);
}

proof fn lemma_run_read_line()
    ensures
        "__maka_read_line()"@ == called("__maka_read_line"@, Seq::empty()),
{
    broadcast use pieces::lemma_put_together;

    reveal_strlit("__maka_read_line()");
    reveal_strlit("__maka_read_line");
    reveal_strlit("(");
    reveal_strlit(")");
    assert("__maka_read_line()"@ =~= "__maka_read_line"@ + "("@ + ")"@);
    assert("__maka_read_line"@ + "("@ + Seq::<char>::empty() + ")"@ =~= "__maka_read_line"@ + "("@
        + ")"@);
    assert(text::joined(Seq::empty(), ", "@) =~= Seq::<char>::empty());
}

proof fn lemma_run_read_int()
    ensures
        "__maka_read_int()"@ == called("__maka_read_int"@, Seq::empty()),
{
    broadcast use pieces::lemma_put_together;

    reveal_strlit("__maka_read_int()");
    reveal_strlit("__maka_read_int");
    reveal_strlit("(");
    reveal_strlit(")");
    assert("__maka_read_int()"@ =~= "__maka_read_int"@ + "("@ + ")"@);
    assert("__maka_read_int"@ + "("@ + Seq::<char>::empty() + ")"@ =~= "__maka_read_int"@ + "("@
        + ")"@);
    assert(text::joined(Seq::empty(), ", "@) =~= Seq::<char>::empty());
}

proof fn lemma_run_concat_free_left(t0: Seq<char>, t1: Seq<char>)
    ensures
        "__maka_str_concat_freel("@ + t0 + ", "@ + t1 + ")"@ == called("__maka_str_concat_freel"@,
            seq![t0, t1]),
{
    broadcast use pieces::lemma_put_together;

    reveal_strlit("__maka_str_concat_freel(");
    reveal_strlit("__maka_str_concat_freel");
    reveal_strlit("(");
    assert("__maka_str_concat_freel("@ =~= "__maka_str_concat_freel"@ + "("@);
    lemma_called_2("__maka_str_concat_freel"@, t0, t1);
}

proof fn lemma_run_concat_free_right(t0: Seq<char>, t1: Seq<char>)
    ensures
        "__maka_str_concat_freer("@ + t0 + ", "@ + t1 + ")"@ == called("__maka_str_concat_freer"@,
            seq![t0, t1]),
{
    broadcast use pieces::lemma_put_together;

    reveal_strlit("__maka_str_concat_freer(");
    reveal_strlit("__maka_str_concat_freer");
    reveal_strlit("(");
    assert("__maka_str_concat_freer("@ =~= "__maka_str_concat_freer"@ + "("@);
    lemma_called_2("__maka_str_concat_freer"@, t0, t1);
}

proof fn lemma_run_concat_free_both(t0: Seq<char>, t1: Seq<char>)
    ensures
        "__maka_str_concat_freeb("@ + t0 + ", "@ + t1 + ")"@ == called("__maka_str_concat_freeb"@,
            seq![t0, t1]),
{
    broadcast use pieces::lemma_put_together;

    reveal_strlit("__maka_str_concat_freeb(");
    reveal_strlit("__maka_str_concat_freeb");
    reveal_strlit("(");
    assert("__maka_str_concat_freeb("@ =~= "__maka_str_concat_freeb"@ + "("@);
    lemma_called_2("__maka_str_concat_freeb"@, t0, t1);
}

proof fn lemma_run_int_to_str(t0: Seq<char>)
    ensures
        "__maka_int_to_str("@ + t0 + ")"@ == called("__maka_int_to_str"@, seq![t0]),
{
    broadcast use pieces::lemma_put_together;

    reveal_strlit("__maka_int_to_str(");
    reveal_strlit("__maka_int_to_str");
    reveal_strlit("(");
    assert("__maka_int_to_str("@ =~= "__maka_int_to_str"@ + "("@);
    lemma_called_1("__maka_int_to_str"@, t0);
}

proof fn lemma_run_bool_to_str(t0: Seq<char>)
    ensures
        "__maka_bool_to_str("@ + t0 + ")"@ == called("__maka_bool_to_str"@, seq![t0]),
{
    broadcast use pieces::lemma_put_together;

    reveal_strlit("__maka_bool_to_str(");
    reveal_strlit("__maka_bool_to_str");
    reveal_strlit("(");
    assert("__maka_bool_to_str("@ =~= "__maka_bool_to_str"@ + "("@);
    lemma_called_1("__maka_bool_to_str"@, t0);
}

proof fn lemma_run_float_to_str(t0: Seq<char>)
    ensures
        "__maka_float_to_str("@ + t0 + ")"@ == called("__maka_float_to_str"@, seq![t0]),
{
    broadcast use pieces::lemma_put_together;

    reveal_strlit("__maka_float_to_str(");
    reveal_strlit("__maka_float_to_str");
    reveal_strlit("(");
    assert("__maka_float_to_str("@ =~= "__maka_float_to_str"@ + "("@);
    lemma_called_1("__maka_float_to_str"@, t0);
}

proof fn lemma_run_char_to_str(t0: Seq<char>)
    ensures
        "__maka_char_to_str("@ + t0 + ")"@ == called("__maka_char_to_str"@, seq![t0]),
{
    broadcast use pieces::lemma_put_together;

    reveal_strlit("__maka_char_to_str(");
    reveal_strlit("__maka_char_to_str");
    reveal_strlit("(");
    assert("__maka_char_to_str("@ =~= "__maka_char_to_str"@ + "("@);
    lemma_called_1("__maka_char_to_str"@, t0);
}

proof fn lemma_run_thread(t0: Seq<char>)
    ensures
        "(__extension__ ({ Callable_unit_ __cb = ("@ + t0
            + "); (Thread*)__maka_spawn_thread(__cb.code, __cb.env); }))"@
            == with_callable("unit_"@, t0, cast_to("Thread*"@, called("__maka_spawn_thread"@,
            seq!["__cb.code"@, "__cb.env"@]))),
{
    broadcast use pieces::lemma_put_together;

    reveal_strlit("(__extension__ ({ Callable_unit_ __cb = (");
    reveal_strlit("(__extension__ ({ Callable_");
    reveal_strlit("unit_");
    reveal_strlit(" __cb = (");
    reveal_strlit("); (Thread*)__maka_spawn_thread(__cb.code, __cb.env); }))");
    reveal_strlit("); ");
    reveal_strlit("(");
    reveal_strlit("Thread*");
    reveal_strlit(")");
    reveal_strlit("__maka_spawn_thread");
    reveal_strlit("__cb.code");
    reveal_strlit(", ");
    reveal_strlit("__cb.env");
    reveal_strlit("; }))");
    assert("(__extension__ ({ Callable_unit_ __cb = ("@ =~= "(__extension__ ({ Callable_"@
        + "unit_"@ + " __cb = ("@);
    assert("); (Thread*)__maka_spawn_thread(__cb.code, __cb.env); }))"@ =~= "); "@ + "("@
        + "Thread*"@ + ")"@ + "__maka_spawn_thread"@ + "("@ + "__cb.code"@ + ", "@ + "__cb.env"@
        + ")"@ + "; }))"@);
    lemma_called_2("__maka_spawn_thread"@, "__cb.code"@, "__cb.env"@);
}

proof fn lemma_run_job(t0: Seq<char>)
    ensures
        "(__extension__ ({ Callable_unit_ __cb = ("@ + t0
            + "); (Thread*)__maka_spawn_job(__cb.code, __cb.env); }))"@ == with_callable("unit_"@,
            t0, cast_to("Thread*"@, called("__maka_spawn_job"@, seq!["__cb.code"@, "__cb.env"@]))),
{
    broadcast use pieces::lemma_put_together;

    reveal_strlit("(__extension__ ({ Callable_unit_ __cb = (");
    reveal_strlit("(__extension__ ({ Callable_");
    reveal_strlit("unit_");
    reveal_strlit(" __cb = (");
    reveal_strlit("); (Thread*)__maka_spawn_job(__cb.code, __cb.env); }))");
    reveal_strlit("); ");
    reveal_strlit("(");
    reveal_strlit("Thread*");
    reveal_strlit(")");
    reveal_strlit("__maka_spawn_job");
    reveal_strlit("__cb.code");
    reveal_strlit(", ");
    reveal_strlit("__cb.env");
    reveal_strlit("; }))");
    assert("(__extension__ ({ Callable_unit_ __cb = ("@ =~= "(__extension__ ({ Callable_"@
        + "unit_"@ + " __cb = ("@);
    assert("); (Thread*)__maka_spawn_job(__cb.code, __cb.env); }))"@ =~= "); "@ + "("@ + "Thread*"@
        + ")"@ + "__maka_spawn_job"@ + "("@ + "__cb.code"@ + ", "@ + "__cb.env"@ + ")"@ + "; }))"@);
    lemma_called_2("__maka_spawn_job"@, "__cb.code"@, "__cb.env"@);
}

proof fn lemma_run_join_all(t0: Seq<char>)
    ensures
        "(__maka_join_all_i64((maka_unit**)("@ + t0 + ").ptr, ("@ + t0 + ").len, NULL), MAKA_UNIT)"@
            == as_unit(called("__maka_join_all_i64"@, seq![cast_to("maka_unit**"@,
            member_of(in_parens(t0), "ptr"@)), member_of(in_parens(t0), "len"@), "NULL"@])),
{
    broadcast use pieces::lemma_put_together;

    reveal_strlit("(__maka_join_all_i64((maka_unit**)(");
    reveal_strlit("(");
    reveal_strlit("__maka_join_all_i64");
    reveal_strlit("maka_unit**");
    reveal_strlit(")");
    reveal_strlit(").ptr, (");
    reveal_strlit(".");
    reveal_strlit("ptr");
    reveal_strlit(", ");
    reveal_strlit(").len, NULL), MAKA_UNIT)");
    reveal_strlit("len");
    reveal_strlit("NULL");
    reveal_strlit(", MAKA_UNIT)");
    assert("(__maka_join_all_i64((maka_unit**)("@ =~= "("@ + "__maka_join_all_i64"@ + "("@ + "("@
        + "maka_unit**"@ + ")"@ + "("@);
    assert(").ptr, ("@ =~= ")"@ + "."@ + "ptr"@ + ", "@ + "("@);
    assert(").len, NULL), MAKA_UNIT)"@ =~= ")"@ + "."@ + "len"@ + ", "@ + "NULL"@ + ")"@
        + ", MAKA_UNIT)"@);
    lemma_called_3("__maka_join_all_i64"@, cast_to("maka_unit**"@, member_of(in_parens(t0),
        "ptr"@)), member_of(in_parens(t0), "len"@), "NULL"@);
}

proof fn lemma_run_select(t0: Seq<char>)
    ensures
        "(__maka_select_first_i64((maka_unit**)("@ + t0 + ").ptr, ("@ + t0
            + ").len, NULL), MAKA_UNIT)"@ == as_unit(called("__maka_select_first_i64"@,
            seq![cast_to("maka_unit**"@, member_of(in_parens(t0), "ptr"@)), member_of(in_parens(t0),
            "len"@), "NULL"@])),
{
    broadcast use pieces::lemma_put_together;

    reveal_strlit("(__maka_select_first_i64((maka_unit**)(");
    reveal_strlit("(");
    reveal_strlit("__maka_select_first_i64");
    reveal_strlit("maka_unit**");
    reveal_strlit(")");
    reveal_strlit(").ptr, (");
    reveal_strlit(".");
    reveal_strlit("ptr");
    reveal_strlit(", ");
    reveal_strlit(").len, NULL), MAKA_UNIT)");
    reveal_strlit("len");
    reveal_strlit("NULL");
    reveal_strlit(", MAKA_UNIT)");
    assert("(__maka_select_first_i64((maka_unit**)("@ =~= "("@ + "__maka_select_first_i64"@ + "("@
        + "("@ + "maka_unit**"@ + ")"@ + "("@);
    assert(").ptr, ("@ =~= ")"@ + "."@ + "ptr"@ + ", "@ + "("@);
    assert(").len, NULL), MAKA_UNIT)"@ =~= ")"@ + "."@ + "len"@ + ", "@ + "NULL"@ + ")"@
        + ", MAKA_UNIT)"@);
    lemma_called_3("__maka_select_first_i64"@, cast_to("maka_unit**"@, member_of(in_parens(t0),
        "ptr"@)), member_of(in_parens(t0), "len"@), "NULL"@);
}

proof fn lemma_run_yield_now()
    ensures
        "(__maka_yield_now(), MAKA_UNIT)"@ == as_unit(called("__maka_yield_now"@, Seq::empty())),
{
    broadcast use pieces::lemma_put_together;

    reveal_strlit("(__maka_yield_now(), MAKA_UNIT)");
    reveal_strlit("(");
    reveal_strlit("__maka_yield_now");
    reveal_strlit(")");
    reveal_strlit(", MAKA_UNIT)");
    assert("(__maka_yield_now(), MAKA_UNIT)"@ =~= "("@ + "__maka_yield_now"@ + "("@ + ")"@
        + ", MAKA_UNIT)"@);
    assert("__maka_yield_now"@ + "("@ + Seq::<char>::empty() + ")"@ =~= "__maka_yield_now"@ + "("@
        + ")"@);
    assert(text::joined(Seq::empty(), ", "@) =~= Seq::<char>::empty());
}

proof fn lemma_run_par_reduce_range(t0: Seq<char>, t1: Seq<char>, t2: Seq<char>, t3: Seq<char>)
    ensures
        "(__extension__ ({ Callable_int_int_int_ __cb = ("@ + t3
            + "); __maka_par_reduce_int((int64_t)("@ + t0 + "), (int64_t)("@ + t1 + "), (int64_t)("@
            + t2 + "), __cb.code, __cb.env); }))"@ == with_callable("int_int_int_"@, t3,
            called("__maka_par_reduce_int"@, seq![cast_to("int64_t"@, in_parens(t0)),
            cast_to("int64_t"@, in_parens(t1)), cast_to("int64_t"@, in_parens(t2)), "__cb.code"@,
            "__cb.env"@])),
{
    broadcast use pieces::lemma_put_together;

    reveal_strlit("(__extension__ ({ Callable_int_int_int_ __cb = (");
    reveal_strlit("(__extension__ ({ Callable_");
    reveal_strlit("int_int_int_");
    reveal_strlit(" __cb = (");
    reveal_strlit("); __maka_par_reduce_int((int64_t)(");
    reveal_strlit("); ");
    reveal_strlit("__maka_par_reduce_int");
    reveal_strlit("(");
    reveal_strlit("int64_t");
    reveal_strlit(")");
    reveal_strlit("), (int64_t)(");
    reveal_strlit(", ");
    reveal_strlit("), __cb.code, __cb.env); }))");
    reveal_strlit("__cb.code");
    reveal_strlit("__cb.env");
    reveal_strlit("; }))");
    assert("(__extension__ ({ Callable_int_int_int_ __cb = ("@ =~= "(__extension__ ({ Callable_"@
        + "int_int_int_"@ + " __cb = ("@);
    assert("); __maka_par_reduce_int((int64_t)("@ =~= "); "@ + "__maka_par_reduce_int"@ + "("@
        + "("@ + "int64_t"@ + ")"@ + "("@);
    assert("), (int64_t)("@ =~= ")"@ + ", "@ + "("@ + "int64_t"@ + ")"@ + "("@);
    assert("), (int64_t)("@ =~= ")"@ + ", "@ + "("@ + "int64_t"@ + ")"@ + "("@);
    assert("), __cb.code, __cb.env); }))"@ =~= ")"@ + ", "@ + "__cb.code"@ + ", "@ + "__cb.env"@
        + ")"@ + "; }))"@);
    lemma_called_5("__maka_par_reduce_int"@, cast_to("int64_t"@, in_parens(t0)), cast_to("int64_t"@,
        in_parens(t1)), cast_to("int64_t"@, in_parens(t2)), "__cb.code"@, "__cb.env"@);
}

proof fn lemma_run_par_map_range(t0: Seq<char>, t1: Seq<char>, t2: Seq<char>)
    ensures
        "(__extension__ ({ Callable_int_int_ __cb = ("@ + t2
            + "); Slice_maka_int __s = __maka_par_map_int((int64_t)("@ + t0 + "), (int64_t)("@ + t1
            + "), __cb.code, __cb.env); (Vec_maka_int){ .data = __s.ptr, .len = __s.len, .cap = __s.len }; }))"@
            == with_callable("int_int_"@, t2, as_vector("maka_int"@, called("__maka_par_map_int"@,
            seq![cast_to("int64_t"@, in_parens(t0)), cast_to("int64_t"@, in_parens(t1)),
            "__cb.code"@, "__cb.env"@]))),
{
    broadcast use pieces::lemma_put_together;

    reveal_strlit("(__extension__ ({ Callable_int_int_ __cb = (");
    reveal_strlit("(__extension__ ({ Callable_");
    reveal_strlit("int_int_");
    reveal_strlit(" __cb = (");
    reveal_strlit("); Slice_maka_int __s = __maka_par_map_int((int64_t)(");
    reveal_strlit("); ");
    reveal_strlit("Slice_");
    reveal_strlit("maka_int");
    reveal_strlit(" __s = ");
    reveal_strlit("__maka_par_map_int");
    reveal_strlit("(");
    reveal_strlit("int64_t");
    reveal_strlit(")");
    reveal_strlit("), (int64_t)(");
    reveal_strlit(", ");
    reveal_strlit("), __cb.code, __cb.env); (Vec_maka_int){ .data = __s.ptr, .len = __s.len, .cap = __s.len }; }))");
    reveal_strlit("__cb.code");
    reveal_strlit("__cb.env");
    reveal_strlit("; (Vec_");
    reveal_strlit("){ .data = __s.ptr, .len = __s.len, .cap = __s.len }");
    reveal_strlit("; }))");
    assert("(__extension__ ({ Callable_int_int_ __cb = ("@ =~= "(__extension__ ({ Callable_"@
        + "int_int_"@ + " __cb = ("@);
    assert("); Slice_maka_int __s = __maka_par_map_int((int64_t)("@ =~= "); "@ + "Slice_"@
        + "maka_int"@ + " __s = "@ + "__maka_par_map_int"@ + "("@ + "("@ + "int64_t"@ + ")"@
        + "("@);
    assert("), (int64_t)("@ =~= ")"@ + ", "@ + "("@ + "int64_t"@ + ")"@ + "("@);
    assert("), __cb.code, __cb.env); (Vec_maka_int){ .data = __s.ptr, .len = __s.len, .cap = __s.len }; }))"@
        =~= ")"@ + ", "@ + "__cb.code"@ + ", "@ + "__cb.env"@ + ")"@ + "; (Vec_"@ + "maka_int"@
        + "){ .data = __s.ptr, .len = __s.len, .cap = __s.len }"@ + "; }))"@);
    lemma_called_4("__maka_par_map_int"@, cast_to("int64_t"@, in_parens(t0)), cast_to("int64_t"@,
        in_parens(t1)), "__cb.code"@, "__cb.env"@);
}

proof fn lemma_run_cancel(t0: Seq<char>)
    ensures
        "(__maka_cancel((maka_unit*)("@ + t0 + ")), MAKA_UNIT)"@ == as_unit(called("__maka_cancel"@,
            seq![cast_to("maka_unit*"@, in_parens(t0))])),
{
    broadcast use pieces::lemma_put_together;

    reveal_strlit("(__maka_cancel((maka_unit*)(");
    reveal_strlit("(");
    reveal_strlit("__maka_cancel");
    reveal_strlit("maka_unit*");
    reveal_strlit(")");
    reveal_strlit(")), MAKA_UNIT)");
    reveal_strlit(", MAKA_UNIT)");
    assert("(__maka_cancel((maka_unit*)("@ =~= "("@ + "__maka_cancel"@ + "("@ + "("@ + "maka_unit*"@
        + ")"@ + "("@);
    assert(")), MAKA_UNIT)"@ =~= ")"@ + ")"@ + ", MAKA_UNIT)"@);
    lemma_called_1("__maka_cancel"@, cast_to("maka_unit*"@, in_parens(t0)));
}

proof fn lemma_run_try_join(t0: Seq<char>)
    ensures
        "((bool)(__maka_try_join((maka_unit*)("@ + t0 + "), NULL) != 0))"@
            == is_nonzero(called("__maka_try_join"@, seq![cast_to("maka_unit*"@, in_parens(t0)),
            "NULL"@])),
{
    broadcast use pieces::lemma_put_together;

    reveal_strlit("((bool)(__maka_try_join((maka_unit*)(");
    reveal_strlit("((bool)(");
    reveal_strlit("__maka_try_join");
    reveal_strlit("(");
    reveal_strlit("maka_unit*");
    reveal_strlit(")");
    reveal_strlit("), NULL) != 0))");
    reveal_strlit(", ");
    reveal_strlit("NULL");
    reveal_strlit(" != 0))");
    assert("((bool)(__maka_try_join((maka_unit*)("@ =~= "((bool)("@ + "__maka_try_join"@ + "("@
        + "("@ + "maka_unit*"@ + ")"@ + "("@);
    assert("), NULL) != 0))"@ =~= ")"@ + ", "@ + "NULL"@ + ")"@ + " != 0))"@);
    lemma_called_2("__maka_try_join"@, cast_to("maka_unit*"@, in_parens(t0)), "NULL"@);
}

proof fn lemma_run_join_timeout(t0: Seq<char>, t1: Seq<char>)
    ensures
        "((bool)(__maka_join_timeout((maka_unit*)("@ + t0 + "), (int64_t)("@ + t1
            + "), NULL) != 0))"@ == is_nonzero(called("__maka_join_timeout"@,
            seq![cast_to("maka_unit*"@, in_parens(t0)), cast_to("int64_t"@, in_parens(t1)),
            "NULL"@])),
{
    broadcast use pieces::lemma_put_together;

    reveal_strlit("((bool)(__maka_join_timeout((maka_unit*)(");
    reveal_strlit("((bool)(");
    reveal_strlit("__maka_join_timeout");
    reveal_strlit("(");
    reveal_strlit("maka_unit*");
    reveal_strlit(")");
    reveal_strlit("), (int64_t)(");
    reveal_strlit(", ");
    reveal_strlit("int64_t");
    reveal_strlit("), NULL) != 0))");
    reveal_strlit("NULL");
    reveal_strlit(" != 0))");
    assert("((bool)(__maka_join_timeout((maka_unit*)("@ =~= "((bool)("@ + "__maka_join_timeout"@
        + "("@ + "("@ + "maka_unit*"@ + ")"@ + "("@);
    assert("), (int64_t)("@ =~= ")"@ + ", "@ + "("@ + "int64_t"@ + ")"@ + "("@);
    assert("), NULL) != 0))"@ =~= ")"@ + ", "@ + "NULL"@ + ")"@ + " != 0))"@);
    lemma_called_3("__maka_join_timeout"@, cast_to("maka_unit*"@, in_parens(t0)),
        cast_to("int64_t"@, in_parens(t1)), "NULL"@);
}

proof fn lemma_run_par_for_each(t0: Seq<char>, t1: Seq<char>)
    ensures
        "(__extension__ ({ Callable_unit_ __cb = ("@ + t1 + "); (__maka_par_for_each_i64(("@ + t0
            + "), __cb.code, __cb.env), MAKA_UNIT); }))"@ == with_callable("unit_"@, t1,
            as_unit(called("__maka_par_for_each_i64"@, seq![in_parens(t0), "__cb.code"@,
            "__cb.env"@]))),
{
    broadcast use pieces::lemma_put_together;

    reveal_strlit("(__extension__ ({ Callable_unit_ __cb = (");
    reveal_strlit("(__extension__ ({ Callable_");
    reveal_strlit("unit_");
    reveal_strlit(" __cb = (");
    reveal_strlit("); (__maka_par_for_each_i64((");
    reveal_strlit("); ");
    reveal_strlit("(");
    reveal_strlit("__maka_par_for_each_i64");
    reveal_strlit("), __cb.code, __cb.env), MAKA_UNIT); }))");
    reveal_strlit(")");
    reveal_strlit(", ");
    reveal_strlit("__cb.code");
    reveal_strlit("__cb.env");
    reveal_strlit(", MAKA_UNIT)");
    reveal_strlit("; }))");
    assert("(__extension__ ({ Callable_unit_ __cb = ("@ =~= "(__extension__ ({ Callable_"@
        + "unit_"@ + " __cb = ("@);
    assert("); (__maka_par_for_each_i64(("@ =~= "); "@ + "("@ + "__maka_par_for_each_i64"@ + "("@
        + "("@);
    assert("), __cb.code, __cb.env), MAKA_UNIT); }))"@ =~= ")"@ + ", "@ + "__cb.code"@ + ", "@
        + "__cb.env"@ + ")"@ + ", MAKA_UNIT)"@ + "; }))"@);
    lemma_called_3("__maka_par_for_each_i64"@, in_parens(t0), "__cb.code"@, "__cb.env"@);
}

proof fn lemma_run_par_map_int(t0: Seq<char>, t1: Seq<char>)
    ensures
        "(__extension__ ({ Callable_int_int_ __cb = ("@ + t1
            + "); Slice_maka_int __s = __maka_par_map_int_slice(("@ + t0
            + "), __cb.code, __cb.env); (Vec_maka_int){ .data = __s.ptr, .len = __s.len, .cap = __s.len }; }))"@
            == with_callable("int_int_"@, t1, as_vector("maka_int"@,
            called("__maka_par_map_int_slice"@, seq![in_parens(t0), "__cb.code"@, "__cb.env"@]))),
{
    broadcast use pieces::lemma_put_together;

    reveal_strlit("(__extension__ ({ Callable_int_int_ __cb = (");
    reveal_strlit("(__extension__ ({ Callable_");
    reveal_strlit("int_int_");
    reveal_strlit(" __cb = (");
    reveal_strlit("); Slice_maka_int __s = __maka_par_map_int_slice((");
    reveal_strlit("); ");
    reveal_strlit("Slice_");
    reveal_strlit("maka_int");
    reveal_strlit(" __s = ");
    reveal_strlit("__maka_par_map_int_slice");
    reveal_strlit("(");
    reveal_strlit("), __cb.code, __cb.env); (Vec_maka_int){ .data = __s.ptr, .len = __s.len, .cap = __s.len }; }))");
    reveal_strlit(")");
    reveal_strlit(", ");
    reveal_strlit("__cb.code");
    reveal_strlit("__cb.env");
    reveal_strlit("; (Vec_");
    reveal_strlit("){ .data = __s.ptr, .len = __s.len, .cap = __s.len }");
    reveal_strlit("; }))");
    assert("(__extension__ ({ Callable_int_int_ __cb = ("@ =~= "(__extension__ ({ Callable_"@
        + "int_int_"@ + " __cb = ("@);
    assert("); Slice_maka_int __s = __maka_par_map_int_slice(("@ =~= "); "@ + "Slice_"@
        + "maka_int"@ + " __s = "@ + "__maka_par_map_int_slice"@ + "("@ + "("@);
    assert("), __cb.code, __cb.env); (Vec_maka_int){ .data = __s.ptr, .len = __s.len, .cap = __s.len }; }))"@
        =~= ")"@ + ", "@ + "__cb.code"@ + ", "@ + "__cb.env"@ + ")"@ + "; (Vec_"@ + "maka_int"@
        + "){ .data = __s.ptr, .len = __s.len, .cap = __s.len }"@ + "; }))"@);
    lemma_called_3("__maka_par_map_int_slice"@, in_parens(t0), "__cb.code"@, "__cb.env"@);
}

proof fn lemma_run_par_reduce_int(t0: Seq<char>, t1: Seq<char>, t2: Seq<char>)
    ensures
        "(__extension__ ({ Callable_int_int_int_ __cb = ("@ + t2
            + "); __maka_par_reduce_int_slice(("@ + t0 + "), (int64_t)("@ + t1
            + "), __cb.code, __cb.env); }))"@ == with_callable("int_int_int_"@, t2,
            called("__maka_par_reduce_int_slice"@, seq![in_parens(t0), cast_to("int64_t"@,
            in_parens(t1)), "__cb.code"@, "__cb.env"@])),
{
    broadcast use pieces::lemma_put_together;

    reveal_strlit("(__extension__ ({ Callable_int_int_int_ __cb = (");
    reveal_strlit("(__extension__ ({ Callable_");
    reveal_strlit("int_int_int_");
    reveal_strlit(" __cb = (");
    reveal_strlit("); __maka_par_reduce_int_slice((");
    reveal_strlit("); ");
    reveal_strlit("__maka_par_reduce_int_slice");
    reveal_strlit("(");
    reveal_strlit("), (int64_t)(");
    reveal_strlit(")");
    reveal_strlit(", ");
    reveal_strlit("int64_t");
    reveal_strlit("), __cb.code, __cb.env); }))");
    reveal_strlit("__cb.code");
    reveal_strlit("__cb.env");
    reveal_strlit("; }))");
    assert("(__extension__ ({ Callable_int_int_int_ __cb = ("@ =~= "(__extension__ ({ Callable_"@
        + "int_int_int_"@ + " __cb = ("@);
    assert("); __maka_par_reduce_int_slice(("@ =~= "); "@ + "__maka_par_reduce_int_slice"@ + "("@
        + "("@);
    assert("), (int64_t)("@ =~= ")"@ + ", "@ + "("@ + "int64_t"@ + ")"@ + "("@);
    assert("), __cb.code, __cb.env); }))"@ =~= ")"@ + ", "@ + "__cb.code"@ + ", "@ + "__cb.env"@
        + ")"@ + "; }))"@);
    lemma_called_4("__maka_par_reduce_int_slice"@, in_parens(t0), cast_to("int64_t"@,
        in_parens(t1)), "__cb.code"@, "__cb.env"@);
}

proof fn lemma_run_par_filter_int(t0: Seq<char>, t1: Seq<char>)
    ensures
        "(__extension__ ({ Callable_bool_int_ __cb = ("@ + t1
            + "); Slice_maka_int __s = __maka_par_filter_int(("@ + t0
            + "), __cb.code, __cb.env); (Vec_maka_int){ .data = __s.ptr, .len = __s.len, .cap = __s.len }; }))"@
            == with_callable("bool_int_"@, t1, as_vector("maka_int"@,
            called("__maka_par_filter_int"@, seq![in_parens(t0), "__cb.code"@, "__cb.env"@]))),
{
    broadcast use pieces::lemma_put_together;

    reveal_strlit("(__extension__ ({ Callable_bool_int_ __cb = (");
    reveal_strlit("(__extension__ ({ Callable_");
    reveal_strlit("bool_int_");
    reveal_strlit(" __cb = (");
    reveal_strlit("); Slice_maka_int __s = __maka_par_filter_int((");
    reveal_strlit("); ");
    reveal_strlit("Slice_");
    reveal_strlit("maka_int");
    reveal_strlit(" __s = ");
    reveal_strlit("__maka_par_filter_int");
    reveal_strlit("(");
    reveal_strlit("), __cb.code, __cb.env); (Vec_maka_int){ .data = __s.ptr, .len = __s.len, .cap = __s.len }; }))");
    reveal_strlit(")");
    reveal_strlit(", ");
    reveal_strlit("__cb.code");
    reveal_strlit("__cb.env");
    reveal_strlit("; (Vec_");
    reveal_strlit("){ .data = __s.ptr, .len = __s.len, .cap = __s.len }");
    reveal_strlit("; }))");
    assert("(__extension__ ({ Callable_bool_int_ __cb = ("@ =~= "(__extension__ ({ Callable_"@
        + "bool_int_"@ + " __cb = ("@);
    assert("); Slice_maka_int __s = __maka_par_filter_int(("@ =~= "); "@ + "Slice_"@ + "maka_int"@
        + " __s = "@ + "__maka_par_filter_int"@ + "("@ + "("@);
    assert("), __cb.code, __cb.env); (Vec_maka_int){ .data = __s.ptr, .len = __s.len, .cap = __s.len }; }))"@
        =~= ")"@ + ", "@ + "__cb.code"@ + ", "@ + "__cb.env"@ + ")"@ + "; (Vec_"@ + "maka_int"@
        + "){ .data = __s.ptr, .len = __s.len, .cap = __s.len }"@ + "; }))"@);
    lemma_called_3("__maka_par_filter_int"@, in_parens(t0), "__cb.code"@, "__cb.env"@);
}

proof fn lemma_run_par_scan_int(t0: Seq<char>, t1: Seq<char>)
    ensures
        "(__extension__ ({ Callable_int_int_int_ __cb = ("@ + t1
            + "); Slice_maka_int __s = __maka_par_scan_int(("@ + t0
            + "), __cb.code, __cb.env); (Vec_maka_int){ .data = __s.ptr, .len = __s.len, .cap = __s.len }; }))"@
            == with_callable("int_int_int_"@, t1, as_vector("maka_int"@,
            called("__maka_par_scan_int"@, seq![in_parens(t0), "__cb.code"@, "__cb.env"@]))),
{
    broadcast use pieces::lemma_put_together;

    reveal_strlit("(__extension__ ({ Callable_int_int_int_ __cb = (");
    reveal_strlit("(__extension__ ({ Callable_");
    reveal_strlit("int_int_int_");
    reveal_strlit(" __cb = (");
    reveal_strlit("); Slice_maka_int __s = __maka_par_scan_int((");
    reveal_strlit("); ");
    reveal_strlit("Slice_");
    reveal_strlit("maka_int");
    reveal_strlit(" __s = ");
    reveal_strlit("__maka_par_scan_int");
    reveal_strlit("(");
    reveal_strlit("), __cb.code, __cb.env); (Vec_maka_int){ .data = __s.ptr, .len = __s.len, .cap = __s.len }; }))");
    reveal_strlit(")");
    reveal_strlit(", ");
    reveal_strlit("__cb.code");
    reveal_strlit("__cb.env");
    reveal_strlit("; (Vec_");
    reveal_strlit("){ .data = __s.ptr, .len = __s.len, .cap = __s.len }");
    reveal_strlit("; }))");
    assert("(__extension__ ({ Callable_int_int_int_ __cb = ("@ =~= "(__extension__ ({ Callable_"@
        + "int_int_int_"@ + " __cb = ("@);
    assert("); Slice_maka_int __s = __maka_par_scan_int(("@ =~= "); "@ + "Slice_"@ + "maka_int"@
        + " __s = "@ + "__maka_par_scan_int"@ + "("@ + "("@);
    assert("), __cb.code, __cb.env); (Vec_maka_int){ .data = __s.ptr, .len = __s.len, .cap = __s.len }; }))"@
        =~= ")"@ + ", "@ + "__cb.code"@ + ", "@ + "__cb.env"@ + ")"@ + "; (Vec_"@ + "maka_int"@
        + "){ .data = __s.ptr, .len = __s.len, .cap = __s.len }"@ + "; }))"@);
    lemma_called_3("__maka_par_scan_int"@, in_parens(t0), "__cb.code"@, "__cb.env"@);
}

proof fn lemma_run_once_do(t0: Seq<char>, t1: Seq<char>)
    ensures
        "(__extension__ ({ Callable_unit_ __cb = ("@ + t1 + "); (maka_once_do((maka_unit*)("@ + t0
            + "), (void*)__cb.code, (void*)__cb.env), MAKA_UNIT); }))"@ == with_callable("unit_"@,
            t1, as_unit(called("maka_once_do"@, seq![cast_to("maka_unit*"@, in_parens(t0)),
            cast_to("void*"@, "__cb.code"@), cast_to("void*"@, "__cb.env"@)]))),
{
    broadcast use pieces::lemma_put_together;

    reveal_strlit("(__extension__ ({ Callable_unit_ __cb = (");
    reveal_strlit("(__extension__ ({ Callable_");
    reveal_strlit("unit_");
    reveal_strlit(" __cb = (");
    reveal_strlit("); (maka_once_do((maka_unit*)(");
    reveal_strlit("); ");
    reveal_strlit("(");
    reveal_strlit("maka_once_do");
    reveal_strlit("maka_unit*");
    reveal_strlit(")");
    reveal_strlit("), (void*)__cb.code, (void*)__cb.env), MAKA_UNIT); }))");
    reveal_strlit(", ");
    reveal_strlit("void*");
    reveal_strlit("__cb.code");
    reveal_strlit("__cb.env");
    reveal_strlit(", MAKA_UNIT)");
    reveal_strlit("; }))");
    assert("(__extension__ ({ Callable_unit_ __cb = ("@ =~= "(__extension__ ({ Callable_"@
        + "unit_"@ + " __cb = ("@);
    assert("); (maka_once_do((maka_unit*)("@ =~= "); "@ + "("@ + "maka_once_do"@ + "("@ + "("@
        + "maka_unit*"@ + ")"@ + "("@);
    assert("), (void*)__cb.code, (void*)__cb.env), MAKA_UNIT); }))"@ =~= ")"@ + ", "@ + "("@
        + "void*"@ + ")"@ + "__cb.code"@ + ", "@ + "("@ + "void*"@ + ")"@ + "__cb.env"@ + ")"@
        + ", MAKA_UNIT)"@ + "; }))"@);
    lemma_called_3("maka_once_do"@, cast_to("maka_unit*"@, in_parens(t0)), cast_to("void*"@,
        "__cb.code"@), cast_to("void*"@, "__cb.env"@));
}

proof fn lemma_run_detach(t0: Seq<char>)
    ensures
        "(__maka_detach((maka_unit*)("@ + t0 + ")), MAKA_UNIT)"@ == as_unit(called("__maka_detach"@,
            seq![cast_to("maka_unit*"@, in_parens(t0))])),
{
    broadcast use pieces::lemma_put_together;

    reveal_strlit("(__maka_detach((maka_unit*)(");
    reveal_strlit("(");
    reveal_strlit("__maka_detach");
    reveal_strlit("maka_unit*");
    reveal_strlit(")");
    reveal_strlit(")), MAKA_UNIT)");
    reveal_strlit(", MAKA_UNIT)");
    assert("(__maka_detach((maka_unit*)("@ =~= "("@ + "__maka_detach"@ + "("@ + "("@ + "maka_unit*"@
        + ")"@ + "("@);
    assert(")), MAKA_UNIT)"@ =~= ")"@ + ")"@ + ", MAKA_UNIT)"@);
    lemma_called_1("__maka_detach"@, cast_to("maka_unit*"@, in_parens(t0)));
}

proof fn lemma_run_par_for_each_float(t0: Seq<char>, t1: Seq<char>)
    ensures
        "(__extension__ ({ Callable_unit_float_ __cb = ("@ + t1 + "); (__maka_par_for_each_f64(("@
            + t0 + "), __cb.code, __cb.env), MAKA_UNIT); }))"@ == with_callable("unit_float_"@, t1,
            as_unit(called("__maka_par_for_each_f64"@, seq![in_parens(t0), "__cb.code"@,
            "__cb.env"@]))),
{
    broadcast use pieces::lemma_put_together;

    reveal_strlit("(__extension__ ({ Callable_unit_float_ __cb = (");
    reveal_strlit("(__extension__ ({ Callable_");
    reveal_strlit("unit_float_");
    reveal_strlit(" __cb = (");
    reveal_strlit("); (__maka_par_for_each_f64((");
    reveal_strlit("); ");
    reveal_strlit("(");
    reveal_strlit("__maka_par_for_each_f64");
    reveal_strlit("), __cb.code, __cb.env), MAKA_UNIT); }))");
    reveal_strlit(")");
    reveal_strlit(", ");
    reveal_strlit("__cb.code");
    reveal_strlit("__cb.env");
    reveal_strlit(", MAKA_UNIT)");
    reveal_strlit("; }))");
    assert("(__extension__ ({ Callable_unit_float_ __cb = ("@ =~= "(__extension__ ({ Callable_"@
        + "unit_float_"@ + " __cb = ("@);
    assert("); (__maka_par_for_each_f64(("@ =~= "); "@ + "("@ + "__maka_par_for_each_f64"@ + "("@
        + "("@);
    assert("), __cb.code, __cb.env), MAKA_UNIT); }))"@ =~= ")"@ + ", "@ + "__cb.code"@ + ", "@
        + "__cb.env"@ + ")"@ + ", MAKA_UNIT)"@ + "; }))"@);
    lemma_called_3("__maka_par_for_each_f64"@, in_parens(t0), "__cb.code"@, "__cb.env"@);
}

proof fn lemma_run_par_map_float(t0: Seq<char>, t1: Seq<char>)
    ensures
        "(__extension__ ({ Callable_float_float_ __cb = ("@ + t1
            + "); Slice_maka_float __s = __maka_par_map_float(("@ + t0
            + "), __cb.code, __cb.env); (Vec_maka_float){ .data = __s.ptr, .len = __s.len, .cap = __s.len }; }))"@
            == with_callable("float_float_"@, t1, as_vector("maka_float"@,
            called("__maka_par_map_float"@, seq![in_parens(t0), "__cb.code"@, "__cb.env"@]))),
{
    broadcast use pieces::lemma_put_together;

    reveal_strlit("(__extension__ ({ Callable_float_float_ __cb = (");
    reveal_strlit("(__extension__ ({ Callable_");
    reveal_strlit("float_float_");
    reveal_strlit(" __cb = (");
    reveal_strlit("); Slice_maka_float __s = __maka_par_map_float((");
    reveal_strlit("); ");
    reveal_strlit("Slice_");
    reveal_strlit("maka_float");
    reveal_strlit(" __s = ");
    reveal_strlit("__maka_par_map_float");
    reveal_strlit("(");
    reveal_strlit("), __cb.code, __cb.env); (Vec_maka_float){ .data = __s.ptr, .len = __s.len, .cap = __s.len }; }))");
    reveal_strlit(")");
    reveal_strlit(", ");
    reveal_strlit("__cb.code");
    reveal_strlit("__cb.env");
    reveal_strlit("; (Vec_");
    reveal_strlit("){ .data = __s.ptr, .len = __s.len, .cap = __s.len }");
    reveal_strlit("; }))");
    assert("(__extension__ ({ Callable_float_float_ __cb = ("@ =~= "(__extension__ ({ Callable_"@
        + "float_float_"@ + " __cb = ("@);
    assert("); Slice_maka_float __s = __maka_par_map_float(("@ =~= "); "@ + "Slice_"@
        + "maka_float"@ + " __s = "@ + "__maka_par_map_float"@ + "("@ + "("@);
    assert("), __cb.code, __cb.env); (Vec_maka_float){ .data = __s.ptr, .len = __s.len, .cap = __s.len }; }))"@
        =~= ")"@ + ", "@ + "__cb.code"@ + ", "@ + "__cb.env"@ + ")"@ + "; (Vec_"@ + "maka_float"@
        + "){ .data = __s.ptr, .len = __s.len, .cap = __s.len }"@ + "; }))"@);
    lemma_called_3("__maka_par_map_float"@, in_parens(t0), "__cb.code"@, "__cb.env"@);
}

proof fn lemma_run_par_reduce_float(t0: Seq<char>, t1: Seq<char>, t2: Seq<char>)
    ensures
        "(__extension__ ({ Callable_float_float_float_ __cb = ("@ + t2
            + "); __maka_par_reduce_float(("@ + t0 + "), (double)("@ + t1
            + "), __cb.code, __cb.env); }))"@ == with_callable("float_float_float_"@, t2,
            called("__maka_par_reduce_float"@, seq![in_parens(t0), cast_to("double"@,
            in_parens(t1)), "__cb.code"@, "__cb.env"@])),
{
    broadcast use pieces::lemma_put_together;

    reveal_strlit("(__extension__ ({ Callable_float_float_float_ __cb = (");
    reveal_strlit("(__extension__ ({ Callable_");
    reveal_strlit("float_float_float_");
    reveal_strlit(" __cb = (");
    reveal_strlit("); __maka_par_reduce_float((");
    reveal_strlit("); ");
    reveal_strlit("__maka_par_reduce_float");
    reveal_strlit("(");
    reveal_strlit("), (double)(");
    reveal_strlit(")");
    reveal_strlit(", ");
    reveal_strlit("double");
    reveal_strlit("), __cb.code, __cb.env); }))");
    reveal_strlit("__cb.code");
    reveal_strlit("__cb.env");
    reveal_strlit("; }))");
    assert("(__extension__ ({ Callable_float_float_float_ __cb = ("@
        =~= "(__extension__ ({ Callable_"@ + "float_float_float_"@ + " __cb = ("@);
    assert("); __maka_par_reduce_float(("@ =~= "); "@ + "__maka_par_reduce_float"@ + "("@ + "("@);
    assert("), (double)("@ =~= ")"@ + ", "@ + "("@ + "double"@ + ")"@ + "("@);
    assert("), __cb.code, __cb.env); }))"@ =~= ")"@ + ", "@ + "__cb.code"@ + ", "@ + "__cb.env"@
        + ")"@ + "; }))"@);
    lemma_called_4("__maka_par_reduce_float"@, in_parens(t0), cast_to("double"@, in_parens(t1)),
        "__cb.code"@, "__cb.env"@);
}

proof fn lemma_run_spawn_pool(t0: Seq<char>)
    ensures
        "(__extension__ ({ Callable_unit_ __cb = ("@ + t0
            + "); (Thread*)__maka_spawn_pool(__cb.code, __cb.env); }))"@ == with_callable("unit_"@,
            t0, cast_to("Thread*"@, called("__maka_spawn_pool"@, seq!["__cb.code"@, "__cb.env"@]))),
{
    broadcast use pieces::lemma_put_together;

    reveal_strlit("(__extension__ ({ Callable_unit_ __cb = (");
    reveal_strlit("(__extension__ ({ Callable_");
    reveal_strlit("unit_");
    reveal_strlit(" __cb = (");
    reveal_strlit("); (Thread*)__maka_spawn_pool(__cb.code, __cb.env); }))");
    reveal_strlit("); ");
    reveal_strlit("(");
    reveal_strlit("Thread*");
    reveal_strlit(")");
    reveal_strlit("__maka_spawn_pool");
    reveal_strlit("__cb.code");
    reveal_strlit(", ");
    reveal_strlit("__cb.env");
    reveal_strlit("; }))");
    assert("(__extension__ ({ Callable_unit_ __cb = ("@ =~= "(__extension__ ({ Callable_"@
        + "unit_"@ + " __cb = ("@);
    assert("); (Thread*)__maka_spawn_pool(__cb.code, __cb.env); }))"@ =~= "); "@ + "("@ + "Thread*"@
        + ")"@ + "__maka_spawn_pool"@ + "("@ + "__cb.code"@ + ", "@ + "__cb.env"@ + ")"@
        + "; }))"@);
    lemma_called_2("__maka_spawn_pool"@, "__cb.code"@, "__cb.env"@);
}

proof fn lemma_run_par_map_bytes(t0: Seq<char>, t1: Seq<char>, t2: Seq<char>, t3: Seq<char>,
    t4: Seq<char>)
    ensures
        "(__extension__ ({ Callable_unit_Pmunit_Pmunit_ __cb = ("@ + t4
            + "); (maka_unit*)maka_par_map_bytes((void*)("@ + t0 + "), (int64_t)("@ + t1
            + "), (int64_t)("@ + t2 + "), (int64_t)("@ + t3
            + "), (void*)__cb.code, (void*)__cb.env); }))"@ == with_callable("unit_Pmunit_Pmunit_"@,
            t4, cast_to("maka_unit*"@, called("maka_par_map_bytes"@, seq![cast_to("void*"@,
            in_parens(t0)), cast_to("int64_t"@, in_parens(t1)), cast_to("int64_t"@, in_parens(t2)),
            cast_to("int64_t"@, in_parens(t3)), cast_to("void*"@, "__cb.code"@), cast_to("void*"@,
            "__cb.env"@)]))),
{
    broadcast use pieces::lemma_put_together;

    reveal_strlit("(__extension__ ({ Callable_unit_Pmunit_Pmunit_ __cb = (");
    reveal_strlit("(__extension__ ({ Callable_");
    reveal_strlit("unit_Pmunit_Pmunit_");
    reveal_strlit(" __cb = (");
    reveal_strlit("); (maka_unit*)maka_par_map_bytes((void*)(");
    reveal_strlit("); ");
    reveal_strlit("(");
    reveal_strlit("maka_unit*");
    reveal_strlit(")");
    reveal_strlit("maka_par_map_bytes");
    reveal_strlit("void*");
    reveal_strlit("), (int64_t)(");
    reveal_strlit(", ");
    reveal_strlit("int64_t");
    reveal_strlit("), (void*)__cb.code, (void*)__cb.env); }))");
    reveal_strlit("__cb.code");
    reveal_strlit("__cb.env");
    reveal_strlit("; }))");
    assert("(__extension__ ({ Callable_unit_Pmunit_Pmunit_ __cb = ("@
        =~= "(__extension__ ({ Callable_"@ + "unit_Pmunit_Pmunit_"@ + " __cb = ("@);
    assert("); (maka_unit*)maka_par_map_bytes((void*)("@ =~= "); "@ + "("@ + "maka_unit*"@ + ")"@
        + "maka_par_map_bytes"@ + "("@ + "("@ + "void*"@ + ")"@ + "("@);
    assert("), (int64_t)("@ =~= ")"@ + ", "@ + "("@ + "int64_t"@ + ")"@ + "("@);
    assert("), (int64_t)("@ =~= ")"@ + ", "@ + "("@ + "int64_t"@ + ")"@ + "("@);
    assert("), (int64_t)("@ =~= ")"@ + ", "@ + "("@ + "int64_t"@ + ")"@ + "("@);
    assert("), (void*)__cb.code, (void*)__cb.env); }))"@ =~= ")"@ + ", "@ + "("@ + "void*"@ + ")"@
        + "__cb.code"@ + ", "@ + "("@ + "void*"@ + ")"@ + "__cb.env"@ + ")"@ + "; }))"@);
    lemma_called_6("maka_par_map_bytes"@, cast_to("void*"@, in_parens(t0)), cast_to("int64_t"@,
        in_parens(t1)), cast_to("int64_t"@, in_parens(t2)), cast_to("int64_t"@, in_parens(t3)),
        cast_to("void*"@, "__cb.code"@), cast_to("void*"@, "__cb.env"@));
}

proof fn lemma_run_par_filter_float(t0: Seq<char>, t1: Seq<char>)
    ensures
        "(__extension__ ({ Callable_bool_float_ __cb = ("@ + t1 + "); __maka_par_filter_float(("@
            + t0 + "), __cb.code, __cb.env); }))"@ == with_callable("bool_float_"@, t1,
            called("__maka_par_filter_float"@, seq![in_parens(t0), "__cb.code"@, "__cb.env"@])),
{
    broadcast use pieces::lemma_put_together;

    reveal_strlit("(__extension__ ({ Callable_bool_float_ __cb = (");
    reveal_strlit("(__extension__ ({ Callable_");
    reveal_strlit("bool_float_");
    reveal_strlit(" __cb = (");
    reveal_strlit("); __maka_par_filter_float((");
    reveal_strlit("); ");
    reveal_strlit("__maka_par_filter_float");
    reveal_strlit("(");
    reveal_strlit("), __cb.code, __cb.env); }))");
    reveal_strlit(")");
    reveal_strlit(", ");
    reveal_strlit("__cb.code");
    reveal_strlit("__cb.env");
    reveal_strlit("; }))");
    assert("(__extension__ ({ Callable_bool_float_ __cb = ("@ =~= "(__extension__ ({ Callable_"@
        + "bool_float_"@ + " __cb = ("@);
    assert("); __maka_par_filter_float(("@ =~= "); "@ + "__maka_par_filter_float"@ + "("@ + "("@);
    assert("), __cb.code, __cb.env); }))"@ =~= ")"@ + ", "@ + "__cb.code"@ + ", "@ + "__cb.env"@
        + ")"@ + "; }))"@);
    lemma_called_3("__maka_par_filter_float"@, in_parens(t0), "__cb.code"@, "__cb.env"@);
}

proof fn lemma_run_par_scan_float(t0: Seq<char>, t1: Seq<char>)
    ensures
        "(__extension__ ({ Callable_float_float_float_ __cb = ("@ + t1
            + "); __maka_par_scan_float(("@ + t0 + "), __cb.code, __cb.env); }))"@
            == with_callable("float_float_float_"@, t1, called("__maka_par_scan_float"@,
            seq![in_parens(t0), "__cb.code"@, "__cb.env"@])),
{
    broadcast use pieces::lemma_put_together;

    reveal_strlit("(__extension__ ({ Callable_float_float_float_ __cb = (");
    reveal_strlit("(__extension__ ({ Callable_");
    reveal_strlit("float_float_float_");
    reveal_strlit(" __cb = (");
    reveal_strlit("); __maka_par_scan_float((");
    reveal_strlit("); ");
    reveal_strlit("__maka_par_scan_float");
    reveal_strlit("(");
    reveal_strlit("), __cb.code, __cb.env); }))");
    reveal_strlit(")");
    reveal_strlit(", ");
    reveal_strlit("__cb.code");
    reveal_strlit("__cb.env");
    reveal_strlit("; }))");
    assert("(__extension__ ({ Callable_float_float_float_ __cb = ("@
        =~= "(__extension__ ({ Callable_"@ + "float_float_float_"@ + " __cb = ("@);
    assert("); __maka_par_scan_float(("@ =~= "); "@ + "__maka_par_scan_float"@ + "("@ + "("@);
    assert("), __cb.code, __cb.env); }))"@ =~= ")"@ + ", "@ + "__cb.code"@ + ", "@ + "__cb.env"@
        + ")"@ + "; }))"@);
    lemma_called_3("__maka_par_scan_float"@, in_parens(t0), "__cb.code"@, "__cb.env"@);
}

proof fn lemma_run_par_filter_bytes(t0: Seq<char>, t1: Seq<char>, t2: Seq<char>, t3: Seq<char>,
    t4: Seq<char>)
    ensures
        "(__extension__ ({ Callable_bool_Pmunit_ __cb = ("@ + t4
            + "); (maka_unit*)maka_par_filter_bytes((void*)("@ + t0 + "), (int64_t)("@ + t1
            + "), (int64_t)("@ + t2 + "), (int64_t*)("@ + t3
            + "), (void*)__cb.code, (void*)__cb.env); }))"@ == with_callable("bool_Pmunit_"@, t4,
            cast_to("maka_unit*"@, called("maka_par_filter_bytes"@, seq![cast_to("void*"@,
            in_parens(t0)), cast_to("int64_t"@, in_parens(t1)), cast_to("int64_t"@, in_parens(t2)),
            cast_to("int64_t*"@, in_parens(t3)), cast_to("void*"@, "__cb.code"@), cast_to("void*"@,
            "__cb.env"@)]))),
{
    broadcast use pieces::lemma_put_together;

    reveal_strlit("(__extension__ ({ Callable_bool_Pmunit_ __cb = (");
    reveal_strlit("(__extension__ ({ Callable_");
    reveal_strlit("bool_Pmunit_");
    reveal_strlit(" __cb = (");
    reveal_strlit("); (maka_unit*)maka_par_filter_bytes((void*)(");
    reveal_strlit("); ");
    reveal_strlit("(");
    reveal_strlit("maka_unit*");
    reveal_strlit(")");
    reveal_strlit("maka_par_filter_bytes");
    reveal_strlit("void*");
    reveal_strlit("), (int64_t)(");
    reveal_strlit(", ");
    reveal_strlit("int64_t");
    reveal_strlit("), (int64_t*)(");
    reveal_strlit("int64_t*");
    reveal_strlit("), (void*)__cb.code, (void*)__cb.env); }))");
    reveal_strlit("__cb.code");
    reveal_strlit("__cb.env");
    reveal_strlit("; }))");
    assert("(__extension__ ({ Callable_bool_Pmunit_ __cb = ("@ =~= "(__extension__ ({ Callable_"@
        + "bool_Pmunit_"@ + " __cb = ("@);
    assert("); (maka_unit*)maka_par_filter_bytes((void*)("@ =~= "); "@ + "("@ + "maka_unit*"@ + ")"@
        + "maka_par_filter_bytes"@ + "("@ + "("@ + "void*"@ + ")"@ + "("@);
    assert("), (int64_t)("@ =~= ")"@ + ", "@ + "("@ + "int64_t"@ + ")"@ + "("@);
    assert("), (int64_t)("@ =~= ")"@ + ", "@ + "("@ + "int64_t"@ + ")"@ + "("@);
    assert("), (int64_t*)("@ =~= ")"@ + ", "@ + "("@ + "int64_t*"@ + ")"@ + "("@);
    assert("), (void*)__cb.code, (void*)__cb.env); }))"@ =~= ")"@ + ", "@ + "("@ + "void*"@ + ")"@
        + "__cb.code"@ + ", "@ + "("@ + "void*"@ + ")"@ + "__cb.env"@ + ")"@ + "; }))"@);
    lemma_called_6("maka_par_filter_bytes"@, cast_to("void*"@, in_parens(t0)), cast_to("int64_t"@,
        in_parens(t1)), cast_to("int64_t"@, in_parens(t2)), cast_to("int64_t*"@, in_parens(t3)),
        cast_to("void*"@, "__cb.code"@), cast_to("void*"@, "__cb.env"@));
}

proof fn lemma_run_par_scan_bytes(t0: Seq<char>, t1: Seq<char>, t2: Seq<char>, t3: Seq<char>)
    ensures
        "(__extension__ ({ Callable_unit_Pmunit_Pmunit_Pmunit_ __cb = ("@ + t3
            + "); (maka_unit*)maka_par_scan_bytes((void*)("@ + t0 + "), (int64_t)("@ + t1
            + "), (int64_t)("@ + t2 + "), (void*)__cb.code, (void*)__cb.env); }))"@
            == with_callable("unit_Pmunit_Pmunit_Pmunit_"@, t3, cast_to("maka_unit*"@,
            called("maka_par_scan_bytes"@, seq![cast_to("void*"@, in_parens(t0)),
            cast_to("int64_t"@, in_parens(t1)), cast_to("int64_t"@, in_parens(t2)),
            cast_to("void*"@, "__cb.code"@), cast_to("void*"@, "__cb.env"@)]))),
{
    broadcast use pieces::lemma_put_together;

    reveal_strlit("(__extension__ ({ Callable_unit_Pmunit_Pmunit_Pmunit_ __cb = (");
    reveal_strlit("(__extension__ ({ Callable_");
    reveal_strlit("unit_Pmunit_Pmunit_Pmunit_");
    reveal_strlit(" __cb = (");
    reveal_strlit("); (maka_unit*)maka_par_scan_bytes((void*)(");
    reveal_strlit("); ");
    reveal_strlit("(");
    reveal_strlit("maka_unit*");
    reveal_strlit(")");
    reveal_strlit("maka_par_scan_bytes");
    reveal_strlit("void*");
    reveal_strlit("), (int64_t)(");
    reveal_strlit(", ");
    reveal_strlit("int64_t");
    reveal_strlit("), (void*)__cb.code, (void*)__cb.env); }))");
    reveal_strlit("__cb.code");
    reveal_strlit("__cb.env");
    reveal_strlit("; }))");
    assert("(__extension__ ({ Callable_unit_Pmunit_Pmunit_Pmunit_ __cb = ("@
        =~= "(__extension__ ({ Callable_"@ + "unit_Pmunit_Pmunit_Pmunit_"@ + " __cb = ("@);
    assert("); (maka_unit*)maka_par_scan_bytes((void*)("@ =~= "); "@ + "("@ + "maka_unit*"@ + ")"@
        + "maka_par_scan_bytes"@ + "("@ + "("@ + "void*"@ + ")"@ + "("@);
    assert("), (int64_t)("@ =~= ")"@ + ", "@ + "("@ + "int64_t"@ + ")"@ + "("@);
    assert("), (int64_t)("@ =~= ")"@ + ", "@ + "("@ + "int64_t"@ + ")"@ + "("@);
    assert("), (void*)__cb.code, (void*)__cb.env); }))"@ =~= ")"@ + ", "@ + "("@ + "void*"@ + ")"@
        + "__cb.code"@ + ", "@ + "("@ + "void*"@ + ")"@ + "__cb.env"@ + ")"@ + "; }))"@);
    lemma_called_5("maka_par_scan_bytes"@, cast_to("void*"@, in_parens(t0)), cast_to("int64_t"@,
        in_parens(t1)), cast_to("int64_t"@, in_parens(t2)), cast_to("void*"@, "__cb.code"@),
        cast_to("void*"@, "__cb.env"@));
}

proof fn lemma_run_atomic_load(t0: Seq<char>)
    ensures
        "__atomic_load_n(("@ + t0 + "), __ATOMIC_SEQ_CST)"@ == called("__atomic_load_n"@,
            seq![in_parens(t0), "__ATOMIC_SEQ_CST"@]),
{
    broadcast use pieces::lemma_put_together;

    reveal_strlit("__atomic_load_n((");
    reveal_strlit("__atomic_load_n");
    reveal_strlit("(");
    reveal_strlit("), __ATOMIC_SEQ_CST)");
    reveal_strlit(")");
    reveal_strlit(", ");
    reveal_strlit("__ATOMIC_SEQ_CST");
    assert("__atomic_load_n(("@ =~= "__atomic_load_n"@ + "("@ + "("@);
    assert("), __ATOMIC_SEQ_CST)"@ =~= ")"@ + ", "@ + "__ATOMIC_SEQ_CST"@ + ")"@);
    lemma_called_2("__atomic_load_n"@, in_parens(t0), "__ATOMIC_SEQ_CST"@);
}

proof fn lemma_run_atomic_store(t0: Seq<char>, t1: Seq<char>)
    ensures
        "(__atomic_store_n(("@ + t0 + "), ("@ + t1 + "), __ATOMIC_SEQ_CST), MAKA_UNIT)"@
            == as_unit(called("__atomic_store_n"@, seq![in_parens(t0), in_parens(t1),
            "__ATOMIC_SEQ_CST"@])),
{
    broadcast use pieces::lemma_put_together;

    reveal_strlit("(__atomic_store_n((");
    reveal_strlit("(");
    reveal_strlit("__atomic_store_n");
    reveal_strlit("), (");
    reveal_strlit(")");
    reveal_strlit(", ");
    reveal_strlit("), __ATOMIC_SEQ_CST), MAKA_UNIT)");
    reveal_strlit("__ATOMIC_SEQ_CST");
    reveal_strlit(", MAKA_UNIT)");
    assert("(__atomic_store_n(("@ =~= "("@ + "__atomic_store_n"@ + "("@ + "("@);
    assert("), ("@ =~= ")"@ + ", "@ + "("@);
    assert("), __ATOMIC_SEQ_CST), MAKA_UNIT)"@ =~= ")"@ + ", "@ + "__ATOMIC_SEQ_CST"@ + ")"@
        + ", MAKA_UNIT)"@);
    lemma_called_3("__atomic_store_n"@, in_parens(t0), in_parens(t1), "__ATOMIC_SEQ_CST"@);
}

proof fn lemma_run_atomic_add(t0: Seq<char>, t1: Seq<char>)
    ensures
        "__atomic_fetch_add(("@ + t0 + "), ("@ + t1 + "), __ATOMIC_SEQ_CST)"@
            == called("__atomic_fetch_add"@, seq![in_parens(t0), in_parens(t1),
            "__ATOMIC_SEQ_CST"@]),
{
    broadcast use pieces::lemma_put_together;

    reveal_strlit("__atomic_fetch_add((");
    reveal_strlit("__atomic_fetch_add");
    reveal_strlit("(");
    reveal_strlit("), (");
    reveal_strlit(")");
    reveal_strlit(", ");
    reveal_strlit("), __ATOMIC_SEQ_CST)");
    reveal_strlit("__ATOMIC_SEQ_CST");
    assert("__atomic_fetch_add(("@ =~= "__atomic_fetch_add"@ + "("@ + "("@);
    assert("), ("@ =~= ")"@ + ", "@ + "("@);
    assert("), __ATOMIC_SEQ_CST)"@ =~= ")"@ + ", "@ + "__ATOMIC_SEQ_CST"@ + ")"@);
    lemma_called_3("__atomic_fetch_add"@, in_parens(t0), in_parens(t1), "__ATOMIC_SEQ_CST"@);
}

proof fn lemma_run_atomic_sub(t0: Seq<char>, t1: Seq<char>)
    ensures
        "__atomic_fetch_sub(("@ + t0 + "), ("@ + t1 + "), __ATOMIC_SEQ_CST)"@
            == called("__atomic_fetch_sub"@, seq![in_parens(t0), in_parens(t1),
            "__ATOMIC_SEQ_CST"@]),
{
    broadcast use pieces::lemma_put_together;

    reveal_strlit("__atomic_fetch_sub((");
    reveal_strlit("__atomic_fetch_sub");
    reveal_strlit("(");
    reveal_strlit("), (");
    reveal_strlit(")");
    reveal_strlit(", ");
    reveal_strlit("), __ATOMIC_SEQ_CST)");
    reveal_strlit("__ATOMIC_SEQ_CST");
    assert("__atomic_fetch_sub(("@ =~= "__atomic_fetch_sub"@ + "("@ + "("@);
    assert("), ("@ =~= ")"@ + ", "@ + "("@);
    assert("), __ATOMIC_SEQ_CST)"@ =~= ")"@ + ", "@ + "__ATOMIC_SEQ_CST"@ + ")"@);
    lemma_called_3("__atomic_fetch_sub"@, in_parens(t0), in_parens(t1), "__ATOMIC_SEQ_CST"@);
}

proof fn lemma_run_atomic_and(t0: Seq<char>, t1: Seq<char>)
    ensures
        "__atomic_fetch_and(("@ + t0 + "), ("@ + t1 + "), __ATOMIC_SEQ_CST)"@
            == called("__atomic_fetch_and"@, seq![in_parens(t0), in_parens(t1),
            "__ATOMIC_SEQ_CST"@]),
{
    broadcast use pieces::lemma_put_together;

    reveal_strlit("__atomic_fetch_and((");
    reveal_strlit("__atomic_fetch_and");
    reveal_strlit("(");
    reveal_strlit("), (");
    reveal_strlit(")");
    reveal_strlit(", ");
    reveal_strlit("), __ATOMIC_SEQ_CST)");
    reveal_strlit("__ATOMIC_SEQ_CST");
    assert("__atomic_fetch_and(("@ =~= "__atomic_fetch_and"@ + "("@ + "("@);
    assert("), ("@ =~= ")"@ + ", "@ + "("@);
    assert("), __ATOMIC_SEQ_CST)"@ =~= ")"@ + ", "@ + "__ATOMIC_SEQ_CST"@ + ")"@);
    lemma_called_3("__atomic_fetch_and"@, in_parens(t0), in_parens(t1), "__ATOMIC_SEQ_CST"@);
}

proof fn lemma_run_atomic_or(t0: Seq<char>, t1: Seq<char>)
    ensures
        "__atomic_fetch_or(("@ + t0 + "), ("@ + t1 + "), __ATOMIC_SEQ_CST)"@
            == called("__atomic_fetch_or"@, seq![in_parens(t0), in_parens(t1),
            "__ATOMIC_SEQ_CST"@]),
{
    broadcast use pieces::lemma_put_together;

    reveal_strlit("__atomic_fetch_or((");
    reveal_strlit("__atomic_fetch_or");
    reveal_strlit("(");
    reveal_strlit("), (");
    reveal_strlit(")");
    reveal_strlit(", ");
    reveal_strlit("), __ATOMIC_SEQ_CST)");
    reveal_strlit("__ATOMIC_SEQ_CST");
    assert("__atomic_fetch_or(("@ =~= "__atomic_fetch_or"@ + "("@ + "("@);
    assert("), ("@ =~= ")"@ + ", "@ + "("@);
    assert("), __ATOMIC_SEQ_CST)"@ =~= ")"@ + ", "@ + "__ATOMIC_SEQ_CST"@ + ")"@);
    lemma_called_3("__atomic_fetch_or"@, in_parens(t0), in_parens(t1), "__ATOMIC_SEQ_CST"@);
}

proof fn lemma_run_atomic_xor(t0: Seq<char>, t1: Seq<char>)
    ensures
        "__atomic_fetch_xor(("@ + t0 + "), ("@ + t1 + "), __ATOMIC_SEQ_CST)"@
            == called("__atomic_fetch_xor"@, seq![in_parens(t0), in_parens(t1),
            "__ATOMIC_SEQ_CST"@]),
{
    broadcast use pieces::lemma_put_together;

    reveal_strlit("__atomic_fetch_xor((");
    reveal_strlit("__atomic_fetch_xor");
    reveal_strlit("(");
    reveal_strlit("), (");
    reveal_strlit(")");
    reveal_strlit(", ");
    reveal_strlit("), __ATOMIC_SEQ_CST)");
    reveal_strlit("__ATOMIC_SEQ_CST");
    assert("__atomic_fetch_xor(("@ =~= "__atomic_fetch_xor"@ + "("@ + "("@);
    assert("), ("@ =~= ")"@ + ", "@ + "("@);
    assert("), __ATOMIC_SEQ_CST)"@ =~= ")"@ + ", "@ + "__ATOMIC_SEQ_CST"@ + ")"@);
    lemma_called_3("__atomic_fetch_xor"@, in_parens(t0), in_parens(t1), "__ATOMIC_SEQ_CST"@);
}

proof fn lemma_run_futex_wait(t0: Seq<char>, t1: Seq<char>)
    ensures
        "(int64_t)__maka_futex_wait((const int*)("@ + t0 + "), (int)("@ + t1 + "))"@
            == cast_to("int64_t"@, called("__maka_futex_wait"@, seq![cast_to("const int*"@,
            in_parens(t0)), cast_to("int"@, in_parens(t1))])),
{
    broadcast use pieces::lemma_put_together;

    reveal_strlit("(int64_t)__maka_futex_wait((const int*)(");
    reveal_strlit("(");
    reveal_strlit("int64_t");
    reveal_strlit(")");
    reveal_strlit("__maka_futex_wait");
    reveal_strlit("const int*");
    reveal_strlit("), (int)(");
    reveal_strlit(", ");
    reveal_strlit("int");
    reveal_strlit("))");
    assert("(int64_t)__maka_futex_wait((const int*)("@ =~= "("@ + "int64_t"@ + ")"@
        + "__maka_futex_wait"@ + "("@ + "("@ + "const int*"@ + ")"@ + "("@);
    assert("), (int)("@ =~= ")"@ + ", "@ + "("@ + "int"@ + ")"@ + "("@);
    assert("))"@ =~= ")"@ + ")"@);
    lemma_called_2("__maka_futex_wait"@, cast_to("const int*"@, in_parens(t0)), cast_to("int"@,
        in_parens(t1)));
}

proof fn lemma_run_futex_wake(t0: Seq<char>, t1: Seq<char>)
    ensures
        "(int64_t)__maka_futex_wake((const int*)("@ + t0 + "), (int)("@ + t1 + "))"@
            == cast_to("int64_t"@, called("__maka_futex_wake"@, seq![cast_to("const int*"@,
            in_parens(t0)), cast_to("int"@, in_parens(t1))])),
{
    broadcast use pieces::lemma_put_together;

    reveal_strlit("(int64_t)__maka_futex_wake((const int*)(");
    reveal_strlit("(");
    reveal_strlit("int64_t");
    reveal_strlit(")");
    reveal_strlit("__maka_futex_wake");
    reveal_strlit("const int*");
    reveal_strlit("), (int)(");
    reveal_strlit(", ");
    reveal_strlit("int");
    reveal_strlit("))");
    assert("(int64_t)__maka_futex_wake((const int*)("@ =~= "("@ + "int64_t"@ + ")"@
        + "__maka_futex_wake"@ + "("@ + "("@ + "const int*"@ + ")"@ + "("@);
    assert("), (int)("@ =~= ")"@ + ", "@ + "("@ + "int"@ + ")"@ + "("@);
    assert("))"@ =~= ")"@ + ")"@);
    lemma_called_2("__maka_futex_wake"@, cast_to("const int*"@, in_parens(t0)), cast_to("int"@,
        in_parens(t1)));
}

proof fn lemma_run_thread_yield()
    ensures
        "(__maka_thread_yield(), MAKA_UNIT)"@ == as_unit(called("__maka_thread_yield"@,
            Seq::empty())),
{
    broadcast use pieces::lemma_put_together;

    reveal_strlit("(__maka_thread_yield(), MAKA_UNIT)");
    reveal_strlit("(");
    reveal_strlit("__maka_thread_yield");
    reveal_strlit(")");
    reveal_strlit(", MAKA_UNIT)");
    assert("(__maka_thread_yield(), MAKA_UNIT)"@ =~= "("@ + "__maka_thread_yield"@ + "("@ + ")"@
        + ", MAKA_UNIT)"@);
    assert("__maka_thread_yield"@ + "("@ + Seq::<char>::empty() + ")"@ =~= "__maka_thread_yield"@
        + "("@ + ")"@);
    assert(text::joined(Seq::empty(), ", "@) =~= Seq::<char>::empty());
}

/// What a call of the built-in function that stands `k` below the highest number runs, given
/// the texts of its arguments: which function of the run-time support, with which arguments in
/// which places.
pub open spec fn runs(k: u32, t: Seq<Seq<char>>) -> Option<Seq<char>> {
    let n = t.len();
    match k {
        1u32 => if n == 1 { Some(as_unit(called("free"@, seq![cast_to("void*"@,
            in_parens(t[0]))]))) } else { None },
        2u32 => if n == 1 { Some(as_unit(called("maka_panic"@, seq![t[0]]))) } else { None },
        3u32 => if n == 1 { Some(with_callable("unit_"@, t[0], cast_to("Thread*"@,
            called("__maka_spawn_fiber"@, seq!["__cb.code"@, "__cb.env"@])))) } else { None },
        4u32 => if n == 1 { Some(as_unit(called("__maka_join"@, seq![cast_to("maka_unit*"@,
            in_parens(t[0]))]))) } else { None },
        5u32 => if n == 2 { Some(called("__maka_str_concat"@, seq![t[0], t[1]])) } else { None },
        6u32 => if n == 0 { Some(called("__maka_read_line"@, Seq::empty())) } else { None },
        7u32 => if n == 0 { Some(called("__maka_read_int"@, Seq::empty())) } else { None },
        8u32 => if n == 2 { Some(called("__maka_str_concat_freel"@, seq![t[0],
            t[1]])) } else { None },
        9u32 => if n == 2 { Some(called("__maka_str_concat_freer"@, seq![t[0],
            t[1]])) } else { None },
        10u32 => if n == 2 { Some(called("__maka_str_concat_freeb"@, seq![t[0],
            t[1]])) } else { None },
        11u32 => if n == 1 { Some(called("__maka_int_to_str"@, seq![t[0]])) } else { None },
        12u32 => if n == 1 { Some(called("__maka_bool_to_str"@, seq![t[0]])) } else { None },
        13u32 => if n == 1 { Some(called("__maka_float_to_str"@, seq![t[0]])) } else { None },
        14u32 => if n == 1 { Some(called("__maka_char_to_str"@, seq![t[0]])) } else { None },
        15u32 => if n == 1 { Some(with_callable("unit_"@, t[0], cast_to("Thread*"@,
            called("__maka_spawn_thread"@, seq!["__cb.code"@, "__cb.env"@])))) } else { None },
        16u32 => if n == 1 { Some(with_callable("unit_"@, t[0], cast_to("Thread*"@,
            called("__maka_spawn_job"@, seq!["__cb.code"@, "__cb.env"@])))) } else { None },
        17u32 => if n == 1 { Some(as_unit(called("__maka_join_all_i64"@,
            seq![cast_to("maka_unit**"@, member_of(in_parens(t[0]), "ptr"@)),
            member_of(in_parens(t[0]), "len"@), "NULL"@]))) } else { None },
        18u32 => if n == 1 { Some(as_unit(called("__maka_select_first_i64"@,
            seq![cast_to("maka_unit**"@, member_of(in_parens(t[0]), "ptr"@)),
            member_of(in_parens(t[0]), "len"@), "NULL"@]))) } else { None },
        20u32 => if n == 0 { Some(as_unit(called("__maka_yield_now"@,
            Seq::empty()))) } else { None },
        21u32 => if n == 4 { Some(with_callable("int_int_int_"@, t[3],
            called("__maka_par_reduce_int"@, seq![cast_to("int64_t"@, in_parens(t[0])),
            cast_to("int64_t"@, in_parens(t[1])), cast_to("int64_t"@, in_parens(t[2])),
            "__cb.code"@, "__cb.env"@]))) } else { None },
        22u32 => if n == 3 { Some(with_callable("int_int_"@, t[2], as_vector("maka_int"@,
            called("__maka_par_map_int"@, seq![cast_to("int64_t"@, in_parens(t[0])),
            cast_to("int64_t"@, in_parens(t[1])), "__cb.code"@, "__cb.env"@])))) } else { None },
        23u32 => if n == 1 { Some(as_unit(called("__maka_cancel"@, seq![cast_to("maka_unit*"@,
            in_parens(t[0]))]))) } else { None },
        24u32 => if n == 1 { Some(is_nonzero(called("__maka_try_join"@, seq![cast_to("maka_unit*"@,
            in_parens(t[0])), "NULL"@]))) } else { None },
        25u32 => if n == 2 { Some(is_nonzero(called("__maka_join_timeout"@,
            seq![cast_to("maka_unit*"@, in_parens(t[0])), cast_to("int64_t"@, in_parens(t[1])),
            "NULL"@]))) } else { None },
        27u32 => if n == 2 { Some(with_callable("unit_"@, t[1],
            as_unit(called("__maka_par_for_each_i64"@, seq![in_parens(t[0]), "__cb.code"@,
            "__cb.env"@])))) } else { None },
        28u32 => if n == 2 { Some(with_callable("int_int_"@, t[1], as_vector("maka_int"@,
            called("__maka_par_map_int_slice"@, seq![in_parens(t[0]), "__cb.code"@,
            "__cb.env"@])))) } else { None },
        29u32 => if n == 3 { Some(with_callable("int_int_int_"@, t[2],
            called("__maka_par_reduce_int_slice"@, seq![in_parens(t[0]), cast_to("int64_t"@,
            in_parens(t[1])), "__cb.code"@, "__cb.env"@]))) } else { None },
        30u32 => if n == 2 { Some(with_callable("bool_int_"@, t[1], as_vector("maka_int"@,
            called("__maka_par_filter_int"@, seq![in_parens(t[0]), "__cb.code"@,
            "__cb.env"@])))) } else { None },
        31u32 => if n == 2 { Some(with_callable("int_int_int_"@, t[1], as_vector("maka_int"@,
            called("__maka_par_scan_int"@, seq![in_parens(t[0]), "__cb.code"@,
            "__cb.env"@])))) } else { None },
        32u32 => if n == 2 { Some(with_callable("unit_"@, t[1], as_unit(called("maka_once_do"@,
            seq![cast_to("maka_unit*"@, in_parens(t[0])), cast_to("void*"@, "__cb.code"@),
            cast_to("void*"@, "__cb.env"@)])))) } else { None },
        33u32 => if n == 1 { Some(as_unit(called("__maka_detach"@, seq![cast_to("maka_unit*"@,
            in_parens(t[0]))]))) } else { None },
        34u32 => if n == 2 { Some(with_callable("unit_float_"@, t[1],
            as_unit(called("__maka_par_for_each_f64"@, seq![in_parens(t[0]), "__cb.code"@,
            "__cb.env"@])))) } else { None },
        35u32 => if n == 2 { Some(with_callable("float_float_"@, t[1], as_vector("maka_float"@,
            called("__maka_par_map_float"@, seq![in_parens(t[0]), "__cb.code"@,
            "__cb.env"@])))) } else { None },
        36u32 => if n == 3 { Some(with_callable("float_float_float_"@, t[2],
            called("__maka_par_reduce_float"@, seq![in_parens(t[0]), cast_to("double"@,
            in_parens(t[1])), "__cb.code"@, "__cb.env"@]))) } else { None },
        37u32 => if n == 1 { Some(with_callable("unit_"@, t[0], cast_to("Thread*"@,
            called("__maka_spawn_pool"@, seq!["__cb.code"@, "__cb.env"@])))) } else { None },
        38u32 => if n == 5 { Some(with_callable("unit_Pmunit_Pmunit_"@, t[4], cast_to("maka_unit*"@,
            called("maka_par_map_bytes"@, seq![cast_to("void*"@, in_parens(t[0])),
            cast_to("int64_t"@, in_parens(t[1])), cast_to("int64_t"@, in_parens(t[2])),
            cast_to("int64_t"@, in_parens(t[3])), cast_to("void*"@, "__cb.code"@), cast_to("void*"@,
            "__cb.env"@)])))) } else { None },
        39u32 => if n == 2 { Some(with_callable("bool_float_"@, t[1],
            called("__maka_par_filter_float"@, seq![in_parens(t[0]), "__cb.code"@,
            "__cb.env"@]))) } else { None },
        40u32 => if n == 2 { Some(with_callable("float_float_float_"@, t[1],
            called("__maka_par_scan_float"@, seq![in_parens(t[0]), "__cb.code"@,
            "__cb.env"@]))) } else { None },
        41u32 => if n == 5 { Some(with_callable("bool_Pmunit_"@, t[4], cast_to("maka_unit*"@,
            called("maka_par_filter_bytes"@, seq![cast_to("void*"@, in_parens(t[0])),
            cast_to("int64_t"@, in_parens(t[1])), cast_to("int64_t"@, in_parens(t[2])),
            cast_to("int64_t*"@, in_parens(t[3])), cast_to("void*"@, "__cb.code"@),
            cast_to("void*"@, "__cb.env"@)])))) } else { None },
        42u32 => if n == 4 { Some(with_callable("unit_Pmunit_Pmunit_Pmunit_"@, t[3],
            cast_to("maka_unit*"@, called("maka_par_scan_bytes"@, seq![cast_to("void*"@,
            in_parens(t[0])), cast_to("int64_t"@, in_parens(t[1])), cast_to("int64_t"@,
            in_parens(t[2])), cast_to("void*"@, "__cb.code"@), cast_to("void*"@,
            "__cb.env"@)])))) } else { None },
        46u32 => if n == 1 { Some(called("__atomic_load_n"@, seq![in_parens(t[0]),
            "__ATOMIC_SEQ_CST"@])) } else { None },
        47u32 => if n == 2 { Some(as_unit(called("__atomic_store_n"@, seq![in_parens(t[0]),
            in_parens(t[1]), "__ATOMIC_SEQ_CST"@]))) } else { None },
        48u32 => if n == 2 { Some(called("__atomic_fetch_add"@, seq![in_parens(t[0]),
            in_parens(t[1]), "__ATOMIC_SEQ_CST"@])) } else { None },
        49u32 => if n == 2 { Some(called("__atomic_fetch_sub"@, seq![in_parens(t[0]),
            in_parens(t[1]), "__ATOMIC_SEQ_CST"@])) } else { None },
        50u32 => if n == 2 { Some(called("__atomic_fetch_and"@, seq![in_parens(t[0]),
            in_parens(t[1]), "__ATOMIC_SEQ_CST"@])) } else { None },
        51u32 => if n == 2 { Some(called("__atomic_fetch_or"@, seq![in_parens(t[0]),
            in_parens(t[1]), "__ATOMIC_SEQ_CST"@])) } else { None },
        52u32 => if n == 2 { Some(called("__atomic_fetch_xor"@, seq![in_parens(t[0]),
            in_parens(t[1]), "__ATOMIC_SEQ_CST"@])) } else { None },
        54u32 => if n == 2 { Some(cast_to("int64_t"@, called("__maka_futex_wait"@,
            seq![cast_to("const int*"@, in_parens(t[0])), cast_to("int"@,
            in_parens(t[1]))]))) } else { None },
        55u32 => if n == 2 { Some(cast_to("int64_t"@, called("__maka_futex_wake"@,
            seq![cast_to("const int*"@, in_parens(t[0])), cast_to("int"@,
            in_parens(t[1]))]))) } else { None },
        56u32 => if n == 0 { Some(as_unit(called("__maka_thread_yield"@,
            Seq::empty()))) } else { None },
        _ => None,
    }
}

/// A call of a built-in function runs what it is for, on all of its arguments in their order.
#[verifier::spinoff_prover]
#[verifier::rlimit(60)]
pub proof fn law_builtin_runs_its_function(
    d: nat,
    cx: Cx,
    st: St,
    k: u32,
    args: Vec<HExpr>,
    ty: HType,
)
    requires
        k < 62,
    ensures
        ({
            let a = lowered::exprs_c(d, cx, st, args, 0, args@.len());
            let e = value_laws::an_expr(
                HExprKind::Call { callee: FuncId((u32::MAX - k) as u32), args },
                ty,
            );
            runs(k, a.texts) matches Some(text) ==> lowered::expr_c(d, cx, st, e) == (Out {
                text,
                st: a.st,
            })
        }),
{
    reveal(lowered::expr_c);
    reveal(lowered::call_c);
    let a = lowered::exprs_c(d, cx, st, args, 0, args@.len());
    let callee = FuncId((u32::MAX - k) as u32);
    let e = value_laws::an_expr(HExprKind::Call { callee, args }, ty);
    if args@.len() > 0 {
        value_laws::law_expressions_in_order(d, cx, st, args, 0, args@.len(), 0);
    } else {
        assert(a.texts.len() == 0);
    }
    assert(a.texts.len() == args@.len());
    let t = a.texts;
    assert(builtins::builtin_of(callee) == builtins::builtin_at(k));
    if let Some(text) = runs(k, t) {
        lemma_runs(cx.sym, k, args@, t);
        let b = builtins::builtin_at(k)->0;
        assert(builtins::evaluated(b, args@.len()) == args@.len());
        assert(lowered::call_c(d, cx, st, callee, args) == (Out {
            text: builtins::builtin_c(cx.sym, b, args@, t),
            st: a.st,
        }));
    }
}

#[verifier::spinoff_prover]
#[verifier::rlimit(60)]
proof fn lemma_runs(sym: SymTab, k: u32, args: Seq<HExpr>, t: Seq<Seq<char>>)
    requires
        runs(k, t) is Some,
        args.len() == t.len(),
    ensures
        builtins::builtin_at(k) matches Some(b) && builtins::evaluated(b, t.len()) == t.len()
            && builtins::builtin_c(
            sym,
            b,
            args,
            t,
        ) == runs(k, t)->0,
{
    if k == 1 {
        lemma_run_free(t[0]);
    }
    if k == 2 {
        lemma_run_panic(t[0]);
    }
    if k == 3 {
        lemma_run_spawn(t[0]);
    }
    if k == 4 {
        lemma_run_join(t[0]);
    }
    if k == 5 {
        lemma_run_concat(t[0], t[1]);
    }
    if k == 6 {
        lemma_run_read_line();
    }
    if k == 7 {
        lemma_run_read_int();
    }
    if k == 8 {
        lemma_run_concat_free_left(t[0], t[1]);
    }
    if k == 9 {
        lemma_run_concat_free_right(t[0], t[1]);
    }
    if k == 10 {
        lemma_run_concat_free_both(t[0], t[1]);
    }
    if k == 11 {
        lemma_run_int_to_str(t[0]);
    }
    if k == 12 {
        lemma_run_bool_to_str(t[0]);
    }
    if k == 13 {
        lemma_run_float_to_str(t[0]);
    }
    if k == 14 {
        lemma_run_char_to_str(t[0]);
    }
    if k == 15 {
        lemma_run_thread(t[0]);
    }
    if k == 16 {
        lemma_run_job(t[0]);
    }
    if k == 17 {
        lemma_run_join_all(t[0]);
    }
    if k == 18 {
        lemma_run_select(t[0]);
    }
    if k == 20 {
        lemma_run_yield_now();
    }
    if k == 21 {
        lemma_run_par_reduce_range(t[0], t[1], t[2], t[3]);
    }
    if k == 22 {
        lemma_run_par_map_range(t[0], t[1], t[2]);
    }
    if k == 23 {
        lemma_run_cancel(t[0]);
    }
    if k == 24 {
        lemma_run_try_join(t[0]);
    }
    if k == 25 {
        lemma_run_join_timeout(t[0], t[1]);
    }
    if k == 27 {
        lemma_run_par_for_each(t[0], t[1]);
    }
    if k == 28 {
        lemma_run_par_map_int(t[0], t[1]);
    }
    if k == 29 {
        lemma_run_par_reduce_int(t[0], t[1], t[2]);
    }
    if k == 30 {
        lemma_run_par_filter_int(t[0], t[1]);
    }
    if k == 31 {
        lemma_run_par_scan_int(t[0], t[1]);
    }
    if k == 32 {
        lemma_run_once_do(t[0], t[1]);
    }
    if k == 33 {
        lemma_run_detach(t[0]);
    }
    if k == 34 {
        lemma_run_par_for_each_float(t[0], t[1]);
    }
    if k == 35 {
        lemma_run_par_map_float(t[0], t[1]);
    }
    if k == 36 {
        lemma_run_par_reduce_float(t[0], t[1], t[2]);
    }
    if k == 37 {
        lemma_run_spawn_pool(t[0]);
    }
    if k == 38 {
        lemma_run_par_map_bytes(t[0], t[1], t[2], t[3], t[4]);
    }
    if k == 39 {
        lemma_run_par_filter_float(t[0], t[1]);
    }
    if k == 40 {
        lemma_run_par_scan_float(t[0], t[1]);
    }
    if k == 41 {
        lemma_run_par_filter_bytes(t[0], t[1], t[2], t[3], t[4]);
    }
    if k == 42 {
        lemma_run_par_scan_bytes(t[0], t[1], t[2], t[3]);
    }
    if k == 46 {
        lemma_run_atomic_load(t[0]);
    }
    if k == 47 {
        lemma_run_atomic_store(t[0], t[1]);
    }
    if k == 48 {
        lemma_run_atomic_add(t[0], t[1]);
    }
    if k == 49 {
        lemma_run_atomic_sub(t[0], t[1]);
    }
    if k == 50 {
        lemma_run_atomic_and(t[0], t[1]);
    }
    if k == 51 {
        lemma_run_atomic_or(t[0], t[1]);
    }
    if k == 52 {
        lemma_run_atomic_xor(t[0], t[1]);
    }
    if k == 54 {
        lemma_run_futex_wait(t[0], t[1]);
    }
    if k == 55 {
        lemma_run_futex_wake(t[0], t[1]);
    }
    if k == 56 {
        lemma_run_thread_yield();
    }
}

/// Logging uses the function for the type of the value; formatted output hands over the format
/// and then the values, each as its type is printed.
pub proof fn law_output_by_type(sym: SymTab, args: Seq<HExpr>, t: Seq<Seq<char>>, i: int)
    requires
        args.len() == t.len(),
        0 < i < t.len(),
    ensures
        args.len() == 1 ==> builtins::builtin_c(sym, Builtin::Log, args, t) == as_unit(
            called(operators::log_name(args[0].ty), t),
        ),
        builtins::builtin_c(sym, Builtin::Printf, args, t) == as_unit(
            called("printf"@, builtins::printf_parts(args, t, args.len())),
        ),
        builtins::builtin_c(sym, Builtin::Format, args, t) == called(
            "__maka_format1"@,
            builtins::printf_parts(args, t, args.len()),
        ),
        builtins::printf_parts(args, t, args.len()).len() == args.len(),
        builtins::printf_parts(args, t, args.len())[0] == t[0],
        builtins::printf_parts(args, t, args.len())[i] == operators::printf_text(t[i], args[i].ty),
{
    broadcast use pieces::lemma_put_together;

    reveal_strlit("(printf(");
    reveal_strlit("(");
    reveal_strlit("printf");
    reveal_strlit("__maka_format1(");
    reveal_strlit("__maka_format1");
    reveal_strlit("), MAKA_UNIT)");
    reveal_strlit(")");
    reveal_strlit(", MAKA_UNIT)");
    assert("(printf("@ =~= "("@ + "printf"@ + "("@);
    assert("__maka_format1("@ =~= "__maka_format1"@ + "("@);
    assert("), MAKA_UNIT)"@ =~= ")"@ + ", MAKA_UNIT)"@);
}

/// One value is logged with the function for its type.
pub proof fn law_log_by_type(sym: SymTab, args: Seq<HExpr>, t: Seq<Seq<char>>)
    requires
        args.len() == 1,
        t.len() == 1,
    ensures
        builtins::builtin_c(sym, Builtin::Log, args, t)
            == as_unit(called(operators::log_name(args[0].ty), t)),
{
    broadcast use pieces::lemma_put_together;

    reveal_strlit("), MAKA_UNIT)");
    reveal_strlit(")");
    reveal_strlit(", MAKA_UNIT)");
    assert("), MAKA_UNIT)"@ =~= ")"@ + ", MAKA_UNIT)"@);
    assert(text::joined(t, ", "@) == t[0]);
}

/// A parallel loop over a range runs the function value from the first bound to the second,
/// and frees the environment where it was made for the call.
pub proof fn law_parallel_range(sym: SymTab, args: Seq<HExpr>, t: Seq<Seq<char>>)
    requires
        args.len() == 3,
        t.len() == 3,
    ensures
        builtins::builtin_c(sym, Builtin::ParForRange, args, t) == with_callable(
            "unit_int_"@,
            t[2],
            called(
                "__maka_par_for_range"@,
                seq![
                    cast_to("int64_t"@, in_parens(t[0])),
                    cast_to("int64_t"@, in_parens(t[1])),
                    "__cb.code"@,
                    "__cb.env"@,
                ],
            ) + ";"@ + (if args[2].kind is Closure { " free(__cb.env);"@ } else { ""@ })
                + " MAKA_UNIT"@,
        ),
        builtins::builtin_at(19) == Some(Builtin::ParForRange),
{
    broadcast use pieces::lemma_put_together;

    lemma_called_4(
        "__maka_par_for_range"@,
        cast_to("int64_t"@, in_parens(t[0])),
        cast_to("int64_t"@, in_parens(t[1])),
        "__cb.code"@,
        "__cb.env"@,
    );
    reveal_strlit("(__extension__ ({ Callable_unit_int_ __cb = (");
    reveal_strlit("(__extension__ ({ Callable_");
    reveal_strlit("unit_int_");
    reveal_strlit(" __cb = (");
    reveal_strlit("); __maka_par_for_range((int64_t)(");
    reveal_strlit("); ");
    reveal_strlit("__maka_par_for_range");
    reveal_strlit("(");
    reveal_strlit("int64_t");
    reveal_strlit(")");
    reveal_strlit("), (int64_t)(");
    reveal_strlit(", ");
    reveal_strlit("), __cb.code, __cb.env);");
    reveal_strlit("__cb.code");
    reveal_strlit("__cb.env");
    reveal_strlit(";");
    reveal_strlit(" MAKA_UNIT; }))");
    reveal_strlit(" MAKA_UNIT");
    reveal_strlit("; }))");
    assert("(__extension__ ({ Callable_unit_int_ __cb = ("@ =~= "(__extension__ ({ Callable_"@
        + "unit_int_"@ + " __cb = ("@);
    assert("); __maka_par_for_range((int64_t)("@ =~= "); "@ + "__maka_par_for_range"@ + "("@ + "("@
        + "int64_t"@ + ")"@ + "("@);
    assert("), (int64_t)("@ =~= ")"@ + ", "@ + "("@ + "int64_t"@ + ")"@ + "("@);
    assert("), __cb.code, __cb.env);"@ =~= ")"@ + ", "@ + "__cb.code"@ + ", "@ + "__cb.env"@ + ")"@
        + ";"@);
    assert(" MAKA_UNIT; }))"@ =~= " MAKA_UNIT"@ + "; }))"@);
}

/// Compare and exchange: the value is exchanged for the third argument where it is the second,
/// and the old one is given back. A fence has the order that its argument names.
pub proof fn law_atomic_exchange(sym: SymTab, args: Seq<HExpr>, t: Seq<Seq<char>>)
    requires
        args.len() == 3,
        t.len() == 3,
    ensures
        builtins::builtin_c(sym, Builtin::AtomicCas, args, t) == "(__extension__ ({ "@
            + (ctypes::ty_c(sym, args[2].ty)
            + " __exp = ("@ + t[1] + "); "@) + called(
            "__atomic_compare_exchange_n"@,
            seq![
                t[0],
                "&__exp"@,
                in_parens(t[2]),
                "0"@,
                "__ATOMIC_SEQ_CST"@,
                "__ATOMIC_SEQ_CST"@,
            ],
        ) + "; __exp; }))"@,
        builtins::builtin_at(45) == Some(Builtin::AtomicCas),
        builtins::builtin_at(53) == Some(Builtin::AtomicFence),
{
    broadcast use pieces::lemma_put_together;

    lemma_called_6(
        "__atomic_compare_exchange_n"@,
        t[0],
        "&__exp"@,
        in_parens(t[2]),
        "0"@,
        "__ATOMIC_SEQ_CST"@,
        "__ATOMIC_SEQ_CST"@,
    );
    reveal_strlit("); __atomic_compare_exchange_n(");
    reveal_strlit("); ");
    reveal_strlit("__atomic_compare_exchange_n");
    reveal_strlit("(");
    reveal_strlit(", &__exp, (");
    reveal_strlit(", ");
    reveal_strlit("&__exp");
    reveal_strlit("), 0, __ATOMIC_SEQ_CST, __ATOMIC_SEQ_CST); __exp; }))");
    reveal_strlit(")");
    reveal_strlit("0");
    reveal_strlit("__ATOMIC_SEQ_CST");
    reveal_strlit("; __exp; }))");
    assert("); __atomic_compare_exchange_n("@ =~= "); "@ + "__atomic_compare_exchange_n"@ + "("@);
    assert(", &__exp, ("@ =~= ", "@ + "&__exp"@ + ", "@ + "("@);
    assert("), 0, __ATOMIC_SEQ_CST, __ATOMIC_SEQ_CST); __exp; }))"@ =~= ")"@ + ", "@ + "0"@ + ", "@
        + "__ATOMIC_SEQ_CST"@ + ", "@ + "__ATOMIC_SEQ_CST"@ + ")"@ + "; __exp; }))"@);
}

/// A system call takes its number and six arguments, each as a `long`, in their order; those
/// that are not given are zero.
pub proof fn law_system_call(sym: SymTab, args: Seq<HExpr>, t: Seq<Seq<char>>, i: int)
    requires
        0 < i < 7,
    ensures
        ({
            let first = builtins::syscall_parts(t, 0, 1);
            let rest = builtins::syscall_parts(t, 1, 7);
            &&& builtins::builtin_c(sym, Builtin::Syscall, args, t) == "(int64_t)"@ + called(
                "__maka_syscall"@,
                first + rest,
            )
            &&& first.len() == 1 && rest.len() == 6
            &&& first[0] == (if t.len() > 0 { "(long)("@ + t[0] + ")"@ } else { "0L"@ })
            &&& rest[i - 1] == (if i < t.len() { "(long)("@ + t[i] + ")"@ } else { "0L"@ })
        }),
        builtins::builtin_at(57) == Some(Builtin::Syscall),
{
    broadcast use pieces::lemma_put_together;

    let first = builtins::syscall_parts(t, 0, 1);
    let rest = builtins::syscall_parts(t, 1, 7);
    value_laws::law_joined_keeps_order(first, rest, ", "@);
    reveal_strlit("(int64_t)__maka_syscall(");
    reveal_strlit("(int64_t)");
    reveal_strlit("__maka_syscall");
    reveal_strlit("(");
    assert("(int64_t)__maka_syscall("@ =~= "(int64_t)"@ + "__maka_syscall"@ + "("@);
    assert(text::joined(first, ", "@) == first[0]);
}

} // verus!
