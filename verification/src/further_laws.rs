//! Further relations between what is asked for and what is written: names, literals,
//! dispatch, loop counters, reassignments and the sections of the run-time support.
use vstd::prelude::*;

use crate::analysis;
use crate::analysis::BceBound;
use crate::builtin_laws;
use crate::builtins;
use crate::builtins::Builtin;
use crate::change_laws;
use crate::context::{Cx, Out, St};
use crate::ctypes;
use crate::definitions;
use crate::dispatch;
use crate::drops;
use crate::hir::{
    EnumId, EnumInfo, FuncId, HArmKind, HAssignOp, HBinOp, HBlock, HExpr, HExprKind, HFunc, HStmt,
    HType, LocalId, LogicInfo, StructId, SymTab, VariantInfo,
};
use crate::lowered;
use crate::match_laws;
use crate::module;
use crate::operators;
use crate::patterns;
use crate::pieces;
use crate::pieces::{Piece, Val};
use crate::runtime::freestanding::{BANNER, FREESTANDING_HEADERS, FREESTANDING_RUNTIME};
use crate::runtime::hosted::{
    BASE_RUNTIME, CANCEL, CHANNELS, FIBER_POOL, FIBER_SCHEDULER, FIBER_STATE, IO_REACTOR,
    JOB_POOL, JOIN, JOIN_ALL, JOIN_TIMEOUT, KERNEL_PRIMITIVES, PAR_BYTES, PAR_FLOAT_SLICES,
    PAR_INT_SCAN, PAR_INT_SLICES, PAR_RANGES, PLATFORM_COMPAT, PLATFORM_HEADERS, REACTOR_BACKENDS,
    READY_QUEUE, SCHEDULER_STATE, SELECT, SELECT_TIMEOUT, SLEEP, SYNC_PRIMITIVES, THREADS,
    TRY_JOIN, WATCHDOG,
};
use crate::runtime::sockets::{
    FILES, FILE_ASYNC, FILE_TREES, LINUX_EVENTS, PORTABLE_EVENTS, PROCESSES, RANDOM_AND_ARGS,
    SHIMS, STRINGS, STRING_SLICES, TCP_SOCKETS, TLS, UDP, UNIX_SOCKETS,
};
use crate::sorted;
use crate::text;
use crate::text::line;
use crate::validity;
use crate::value_laws;
use crate::values;

verus! {

proof fn lemma_hex_digits(n: nat)
    ensures
        text::hex_number(text::digits(n, 16)) == n,
        text::digits(n, 16).len() > 0,
    decreases n,
{
    if n < 16 {
        assert(text::digits(n, 16) =~= seq![text::digit(n)]);
        assert(seq![text::digit(n)].drop_last() =~= Seq::empty());
        reveal_with_fuel(text::hex_number, 2);
    } else {
        lemma_hex_digits(n / 16);
        let t = text::digits(n / 16, 16);
        assert(text::digits(n, 16) == t.push(text::digit(n % 16)));
        assert(t.push(text::digit(n % 16)).drop_last() =~= t);
    }
}

/// Hexadecimal digits give the number back.
pub proof fn law_hexadecimal_reads_back(n: nat)
    ensures
        text::hex_number(text::hex2(n)) == n,
        text::hex2(n).len() >= 2,
{
    lemma_hex_digits(n);
    if n < 16 {
        reveal_strlit("0");
        let d = text::digits(n, 16);
        assert(d =~= seq![text::digit(n)]);
        let h = text::hex2(n);
        assert(h =~= seq!['0', text::digit(n)]);
        assert(h.drop_last() =~= seq!['0']);
        assert(seq!['0'].drop_last() =~= Seq::empty());
        reveal_with_fuel(text::hex_number, 3);
    } else if n < 256 {
        assert(text::digits(n, 16) == text::digits(n / 16, 16).push(text::digit(n % 16)));
        lemma_hex_digits(n / 16);
    } else {
        assert(text::digits(n, 16) == text::digits(n / 16, 16).push(text::digit(n % 16)));
        lemma_hex_digits(n / 16);
    }
}

/// A character that C names may not have becomes an underscore and its code, and any other
/// stays as it is.
pub proof fn law_mangled_character_has_its_code(name: Seq<char>, c: char)
    ensures
        text::ident(name.push(c)) == text::ident(name) + text::ident(seq![c]),
        text::ident_char(c) ==> text::ident(seq![c]) == seq![c],
        !text::ident_char(c) ==> text::ident(seq![c])[0] == '_'
            && text::hex_number(text::ident(seq![c]).skip(1)) == c as nat,
{
    assert(name.push(c) =~= name + seq![c]);
    text::law_ident_goes_over_joining(name, seq![c]);
    assert(seq![c].drop_last() =~= Seq::empty());
    assert(text::ident(Seq::empty()) =~= Seq::empty());
    reveal_strlit("_");
    if text::ident_char(c) {
        assert(text::ident(seq![c]) =~= seq![c]);
    } else {
        law_hexadecimal_reads_back(c as nat);
        assert(text::ident(seq![c]) =~= seq!['_'] + text::hex2(c as nat));
        assert(text::ident(seq![c]).skip(1) =~= text::hex2(c as nat));
    }
}

/// The other literals.
pub proof fn law_texts_and_units(d: nat, cx: Cx, st: St, s: String, ty: HType)
    ensures
        lowered::expr_c(d, cx, st, value_laws::an_expr(HExprKind::LitStr(s), ty))
            == (Out { text: operators::str_text(s@), st }),
        lowered::expr_c(d, cx, st, value_laws::an_expr(HExprKind::LitUnit, ty))
            == (Out { text: "MAKA_UNIT"@, st }),
        operators::global_init_text(value_laws::an_expr(HExprKind::LitStr(s), ty))
            == operators::str_text(s@),
{
    reveal(lowered::expr_c);
}

/// A call goes through a table of methods exactly where its first argument is a trait object
/// or leads to one. Of `&x` the object is `x` itself.
pub proof fn law_calls_on_objects_are_dispatched(
    d: nat,
    cx: Cx,
    st: St,
    callee: FuncId,
    args: Vec<HExpr>,
    ty: HType,
)
    ensures
        args@.len() == 0 ==> !validity::dispatched(args@),
        args@.len() > 0 && args@[0].ty is Dyn ==> validity::dispatched(args@),
        args@.len() > 0 && (args@[0].ty matches HType::Ref { inner, .. } && *inner is Dyn)
            ==> validity::dispatched(args@),
        args@.len() > 0 && (args@[0].ty is Struct || args@[0].ty is Int || args@[0].ty is Str
            || args@[0].ty is Enum) ==> !validity::dispatched(args@),
        builtins::builtin_of(callee) is None && validity::dispatched(args@)
            && (args@[0].kind is AddrOfRef) ==> ({
            let place = *args@[0].kind->AddrOfRef_place;
            let p = lowered::place_c(d, cx, st, place);
            let rest = lowered::exprs_c(d, cx, p.st, args, 1, args@.len());
            lowered::expr_c(d, cx, st, value_laws::an_expr(HExprKind::Call { callee, args }, ty))
                == (Out {
                text: values::dispatch_text(cx.sym.the_sig(callee), p.text, rest.texts),
                st: rest.st,
            })
        }),
{
    reveal(lowered::expr_c);
    reveal(lowered::call_c);
    reveal(lowered::place_c);
    let e = value_laws::an_expr(HExprKind::Call { callee, args }, ty);
    assert(lowered::expr_c(d, cx, st, e) == lowered::call_c(d, cx, st, callee, args));
}

/// A counting loop is recognised: one that starts at a literal that is not negative, runs while
/// its counter is below a literal, at most a literal or below the length of a slice or vector,
/// with a body that changes neither. Its bound is the least that holds.
pub proof fn law_counting_loops_are_known(
    local: LocalId,
    start: i64,
    ty: HType,
    op: HBinOp,
    rhs: HExpr,
    cty: HType,
    step: HStmt,
    body: HBlock,
)
    requires
        start >= 0,
        analysis::rise(step, local.0) > 0,
        !analysis::block_mutates(body, local.0),
    ensures
        ({
            let init = HStmt::Let { local, init: value_laws::an_expr(HExprKind::LitInt(start),
                ty) };
            let cond = value_laws::an_expr(
                HExprKind::Bin {
                    op,
                    lhs: Box::new(value_laws::an_expr(HExprKind::Local(local), ty)),
                    rhs: Box::new(rhs),
                },
                cty,
            );
            let found = analysis::loop_bound(init, cond, step, body);
            &&& rhs.kind matches HExprKind::LitInt(n) ==> n >= 0 ==> match op {
                HBinOp::Lt => found == Some((local.0, BceBound::Const(n))) && analysis::lets_in(
                    cond,
                    n - 1,
                    0,
                ),
                HBinOp::Le => n < i64::MAX ==> found == Some(
                    (local.0, BceBound::Const((n + 1) as i64)),
                ) && analysis::lets_in(cond, n as int, 0),
                _ => found is None,
            }
            &&& rhs.kind matches HExprKind::SliceLen(x) ==> x.kind matches HExprKind::Local(s) ==> (
            if op is Lt && !analysis::block_mutates(body, s.0) {
                found == Some((local.0, BceBound::SliceLen(s.0)))
            } else {
                found is None
            })
        }),
{
}

/// The slice that bounds a known counter is the one in the loop's guard, and the counter is
/// the guard's left side and the local that the loop declares.
pub proof fn law_bounds_come_from_the_guard(
    init: HStmt,
    cond: HExpr,
    body: HBlock,
    counter: u32,
    bound: BceBound,
)
    requires
        analysis::counter_bound(init, cond, body) == Some((counter, bound)),
    ensures
        init matches HStmt::Let { local, .. } && local.0 == counter,
        cond.kind matches HExprKind::Bin { lhs, .. } && lhs.kind == HExprKind::Local(
            LocalId(counter),
        ),
        match bound {
            BceBound::Const(n) => analysis::lets_in(cond, n - 1, 0),
            BceBound::SliceLen(s) => cond.kind matches HExprKind::Bin { rhs, .. } && (
            rhs.kind matches HExprKind::SliceLen(x) && x.kind == HExprKind::Local(LocalId(s))),
        },
{
}

/// What a move clears: an owning pointer or reference that is read from a field or an element
/// of something owned, and nothing else.
pub proof fn law_what_a_move_clears(src: HExpr)
    ensures
        validity::clears_source(src) <==> (src.ty is OwnPtr || src.ty is Heap) && (src.kind is Field
            || src.kind is Index) && analysis::owned_place(src),
        src.kind is Local ==> !validity::clears_source(src),
        src.ty is Int || src.ty is Struct || src.ty is Ref || src.ty is Ptr || src.ty is RawPtr
            ==> !validity::clears_source(src),
{
}

/// In an expansion too, overwriting an owning place releases what it held first, unless the
/// new value is made from it.
pub proof fn law_inline_reassignment_releases_the_old_value(
    d: nat,
    cx: Cx,
    st: St,
    place: HExpr,
    value: HExpr,
    root: u32,
)
    requires
        !validity::through_pointer(cx.f, place),
        change_laws::rooted(place, root),
        drops::ty_owns(cx.sym, cx.owns, place.ty),
    ensures
        ({
            let s = HStmt::Assign { op: HAssignOp::Assign, place, value };
            let l = lowered::place_c(d, cx, st, place);
            let r = lowered::expr_c(d, cx, l.st, value);
            let set = l.text + " "@ + "="@ + " "@ + r.text + "; "@;
            let drop = drops::field_drop_c(cx.sym, cx.owns, cx.ind, l.text, place.ty, 0);
            text::begins(
                lowered::inline_stmt_c(d, cx, st, s).text,
                if analysis::reads_local(value, root) { set } else { drop + set },
            )
        }),
{
    reveal(lowered::inline_stmt_c);
    reveal(lowered::place_c);
    reveal(lowered::expr_c);
    change_laws::law_root_is_the_local(place, root);
    let s = HStmt::Assign { op: HAssignOp::Assign, place, value };
    let l = lowered::place_c(d, cx, st, place);
    let r = lowered::expr_c(d, cx, l.st, value);
    let set = l.text + " "@ + "="@ + " "@ + r.text + "; "@;
    let drop = drops::field_drop_c(cx.sym, cx.owns, cx.ind, l.text, place.ty, 0);
    let first = if analysis::reads_local(value, root) { set } else { drop + set };
    let m = lowered::cleared_c(cx.sym, value.ty, lowered::place_c(d, cx, r.st, value).text);
    assert((first + m + " "@).take(first.len() as int) =~= first);
    assert(first.take(first.len() as int) =~= first);
}

/// Structs and enums are declared before they are defined, each under its name.
pub proof fn law_structs_are_declared(sym: SymTab, n: nat)
    requires
        n < sym.structs@.len(),
    ensures
        ({
            let s = sym.structs@[n as int];
            let c = text::ident(s.name@);
            let shown = s.type_params@.len() == 0 && s.name@ != "Thread"@;
            definitions::struct_forwards(sym, n + 1) == definitions::struct_forwards(sym, n)
                + (if shown {
                text::line_c(""@, "typedef struct "@ + c + " "@ + c + ";"@)
            } else {
                ""@
            })
        }),
{
    let k = n + 1;
    assert((k - 1) as nat == n);
    reveal_strlit("");
    let b = definitions::struct_forwards(sym, n);
    assert(b + ""@ =~= b);
}

/// A trait has a type for its table, with a slot for each method, and one for its objects: the
/// data and the table.
pub proof fn law_trait_types(sym: SymTab, l: LogicInfo, name: Seq<char>, id: StructId)
    ensures
        ({
            let t = text::ident(name);
            let names = sorted::ascending::<String>(dispatch::method_names(sym, l));
            let ind = text::deeper_c(""@);
            &&& dispatch::trait_text(sym, l, name) == text::line_c(""@, "typedef struct "@ + t
                + "_vtbl {"@) + dispatch::slots_text(
                sym,
                l,
                ind,
                names,
                names.len(),
            ) + text::line_c(""@, "} "@ + t + "_vtbl;"@) + text::line_c(
                ""@,
                "typedef struct { void* data; const "@ + t + "_vtbl* vtbl; } Dyn_"@ + t + ";"@,
            )
            &&& dispatch::table_text(sym, l, name, id) == text::line_c(
                ""@,
                "static const "@ + t + "_vtbl "@ + t + "_vtbl_for_"@ + text::ident(
                    sym.structs@[id.0 as int].name@,
                ) + " = {"@,
            ) + dispatch::entries_text(sym, l, id, ind, names, names.len()) + text::line_c(""@,
                "};"@)
        }),
{
}

/// The key of a signature holds the keys of the result and of every parameter, in their order.
pub proof fn law_signature_keys(ret_key: Seq<char>, param_keys: Seq<String>, n: nat)
    requires
        n < param_keys.len(),
    ensures
        ctypes::raw_sig_key(ret_key, param_keys, n + 1) == ctypes::raw_sig_key(ret_key, param_keys,
            n)
            + param_keys[n as int]@ + "_"@,
        ctypes::raw_sig_key(ret_key, param_keys, 0) == ret_key + "_"@,
        ctypes::sig_key(ret_key, param_keys).len() == ctypes::raw_sig_key(
            ret_key,
            param_keys,
            param_keys.len(),
        ).len(),
        forall|i: int|
            0 <= i < ctypes::sig_key(ret_key, param_keys).len() ==> {
                let c = ctypes::raw_sig_key(ret_key, param_keys, param_keys.len())[i];
                #[trigger] ctypes::sig_key(ret_key, param_keys)[i] == (if c == '\'' {
                    'x'
                } else if c == '+' {
                    'p'
                } else {
                    c
                })
            },
{
    let k = n + 1;
    assert((k - 1) as nat == n);
}

/// The keys of types tell how they are built.
pub proof fn law_type_keys(sym: SymTab, t: HType, mutable: bool, len: i64)
    ensures
        ({
            let b = Box::new(t);
            let k = ctypes::ty_key(sym, t);
            &&& ctypes::ty_key(sym, HType::Ref { inner: b, mutable }) == "p_"@ + k
            &&& ctypes::ty_key(sym, HType::Ptr { inner: b, mutable }) == "p_"@ + k
            &&& ctypes::ty_key(sym, HType::RawPtr { inner: b, mutable }) == "p_"@ + k
            &&& ctypes::ty_key(sym, HType::OwnPtr { inner: b, mutable }) == "p_"@ + k
            &&& ctypes::ty_key(sym, HType::Heap { inner: b }) == "h_"@ + k
            &&& ctypes::ty_key(sym, HType::Slice { elem: b, mutable }) == "Slice_"@ + k
            &&& ctypes::ty_key(sym, HType::Vec { elem: b }) == "Vec_"@ + k
            &&& ctypes::ty_key(sym, HType::Array { len, elem: b }) == "a"@
                + text::decimal(len as int) + "_"@ + k
            &&& t is Int || t is Float || t is Bool || t is Char || t is Unit || t is SizedInt
                || t is SizedFloat || t is Struct || t is Enum ==> k == ctypes::ty_c(sym, t)
            &&& t is NullT ==> k == "nullptr_t"@
            &&& t is Str ==> k == "str"@ && ctypes::key_c(k) == ctypes::ty_c(sym, t)
        }),
{
    if t is Str {
        reveal_strlit("str");
        reveal_strlit("p_");
        reveal_strlit("pm_");
        reveal_strlit("pc_");
        let s = "str"@;
        assert("p_"@[0] == 'p' && "pm_"@[0] == 'p' && "pc_"@[0] == 'p' && s[0] == 's');
        assert(s.take(2)[0] == 's' && s.take(3)[0] == 's');
    }
}

/// Texts one after the other.
pub open spec fn all_of(v: Seq<Seq<char>>) -> Seq<char>
    decreases v.len(),
{
    if v.len() == 0 {
        Seq::empty()
    } else if v.len() == 1 {
        v[0]
    } else {
        all_of(v.drop_last()) + v.last()
    }
}

/// Each of several texts is a part of all of them.
pub proof fn law_all_of_holds_each(v: Seq<Seq<char>>, i: int)
    requires
        0 <= i < v.len(),
    ensures
        text::has_part(all_of(v), v[i]),
    decreases v.len(),
{
    if v.len() == 1 {
        text::lemma_part_last(Seq::empty(), v[0]);
        assert(Seq::<char>::empty() + v[0] =~= v[0]);
    } else if i == v.len() - 1 {
        text::lemma_part_last(all_of(v.drop_last()), v.last());
    } else {
        law_all_of_holds_each(v.drop_last(), i);
        assert(v.drop_last()[i] == v[i]);
        text::lemma_part_kept(all_of(v.drop_last()), v.last(), v[i]);
    }
}

/// The parts of the run-time support of a hosted program, each after those that it uses.
pub open spec fn runtime_parts() -> Seq<Seq<char>> {
    seq![
        BASE_RUNTIME@,
        PLATFORM_COMPAT@,
        KERNEL_PRIMITIVES@,
        CHANNELS@,
        THREADS@,
        FIBER_STATE@,
        REACTOR_BACKENDS@,
        READY_QUEUE@,
        WATCHDOG@,
        FIBER_SCHEDULER@,
        SCHEDULER_STATE@,
        FIBER_POOL@,
        IO_REACTOR@,
        JOB_POOL@,
        JOIN@,
        TRY_JOIN@,
        JOIN_TIMEOUT@,
        CANCEL@,
        JOIN_ALL@,
        SELECT@,
        SELECT_TIMEOUT@,
        SLEEP@,
        PAR_RANGES@,
        SYNC_PRIMITIVES@,
        PAR_INT_SLICES@,
        PAR_FLOAT_SLICES@,
        PAR_BYTES@,
        PAR_INT_SCAN@,
    ]
}

proof fn lemma_runtime_parts()
    ensures
        module::hosted_runtime() == all_of(runtime_parts()),
{
    let v = runtime_parts();
    let t0 = BASE_RUNTIME@;
    let t1 = t0 + PLATFORM_COMPAT@;
    let t2 = t1 + KERNEL_PRIMITIVES@;
    let t3 = t2 + CHANNELS@;
    let t4 = t3 + THREADS@;
    let t5 = t4 + FIBER_STATE@;
    let t6 = t5 + REACTOR_BACKENDS@;
    let t7 = t6 + READY_QUEUE@;
    let t8 = t7 + WATCHDOG@;
    let t9 = t8 + FIBER_SCHEDULER@;
    let t10 = t9 + SCHEDULER_STATE@;
    let t11 = t10 + FIBER_POOL@;
    let t12 = t11 + IO_REACTOR@;
    let t13 = t12 + JOB_POOL@;
    let t14 = t13 + JOIN@;
    let t15 = t14 + TRY_JOIN@;
    let t16 = t15 + JOIN_TIMEOUT@;
    let t17 = t16 + CANCEL@;
    let t18 = t17 + JOIN_ALL@;
    let t19 = t18 + SELECT@;
    let t20 = t19 + SELECT_TIMEOUT@;
    let t21 = t20 + SLEEP@;
    let t22 = t21 + PAR_RANGES@;
    let t23 = t22 + SYNC_PRIMITIVES@;
    let t24 = t23 + PAR_INT_SLICES@;
    let t25 = t24 + PAR_FLOAT_SLICES@;
    let t26 = t25 + PAR_BYTES@;
    let t27 = t26 + PAR_INT_SCAN@;
    assert(v.take(1) =~= seq![v[0]]);
    assert(all_of(v.take(1)) == t0);
    assert(v.take(2).drop_last() =~= v.take(1));
    assert(all_of(v.take(2)) == t1);
    assert(v.take(3).drop_last() =~= v.take(2));
    assert(all_of(v.take(3)) == t2);
    assert(v.take(4).drop_last() =~= v.take(3));
    assert(all_of(v.take(4)) == t3);
    assert(v.take(5).drop_last() =~= v.take(4));
    assert(all_of(v.take(5)) == t4);
    assert(v.take(6).drop_last() =~= v.take(5));
    assert(all_of(v.take(6)) == t5);
    assert(v.take(7).drop_last() =~= v.take(6));
    assert(all_of(v.take(7)) == t6);
    assert(v.take(8).drop_last() =~= v.take(7));
    assert(all_of(v.take(8)) == t7);
    assert(v.take(9).drop_last() =~= v.take(8));
    assert(all_of(v.take(9)) == t8);
    assert(v.take(10).drop_last() =~= v.take(9));
    assert(all_of(v.take(10)) == t9);
    assert(v.take(11).drop_last() =~= v.take(10));
    assert(all_of(v.take(11)) == t10);
    assert(v.take(12).drop_last() =~= v.take(11));
    assert(all_of(v.take(12)) == t11);
    assert(v.take(13).drop_last() =~= v.take(12));
    assert(all_of(v.take(13)) == t12);
    assert(v.take(14).drop_last() =~= v.take(13));
    assert(all_of(v.take(14)) == t13);
    assert(v.take(15).drop_last() =~= v.take(14));
    assert(all_of(v.take(15)) == t14);
    assert(v.take(16).drop_last() =~= v.take(15));
    assert(all_of(v.take(16)) == t15);
    assert(v.take(17).drop_last() =~= v.take(16));
    assert(all_of(v.take(17)) == t16);
    assert(v.take(18).drop_last() =~= v.take(17));
    assert(all_of(v.take(18)) == t17);
    assert(v.take(19).drop_last() =~= v.take(18));
    assert(all_of(v.take(19)) == t18);
    assert(v.take(20).drop_last() =~= v.take(19));
    assert(all_of(v.take(20)) == t19);
    assert(v.take(21).drop_last() =~= v.take(20));
    assert(all_of(v.take(21)) == t20);
    assert(v.take(22).drop_last() =~= v.take(21));
    assert(all_of(v.take(22)) == t21);
    assert(v.take(23).drop_last() =~= v.take(22));
    assert(all_of(v.take(23)) == t22);
    assert(v.take(24).drop_last() =~= v.take(23));
    assert(all_of(v.take(24)) == t23);
    assert(v.take(25).drop_last() =~= v.take(24));
    assert(all_of(v.take(25)) == t24);
    assert(v.take(26).drop_last() =~= v.take(25));
    assert(all_of(v.take(26)) == t25);
    assert(v.take(27).drop_last() =~= v.take(26));
    assert(all_of(v.take(27)) == t26);
    assert(v.take(28).drop_last() =~= v.take(27));
    assert(all_of(v.take(28)) == t27);
    assert(v.take(28) =~= v);
}

/// The parts of the socket helpers.
pub open spec fn socket_parts() -> Seq<Seq<char>> {
    seq![
        TCP_SOCKETS@,
        TLS@,
        UNIX_SOCKETS@,
        FILE_ASYNC@,
        FILES@,
        SHIMS@,
        STRINGS@,
        RANDOM_AND_ARGS@,
        STRING_SLICES@,
        PROCESSES@,
        FILE_TREES@,
        UDP@,
        LINUX_EVENTS@,
        PORTABLE_EVENTS@,
    ]
}

proof fn lemma_socket_parts()
    ensures
        module::socket_helpers() == all_of(socket_parts()),
{
    let v = socket_parts();
    let t0 = TCP_SOCKETS@;
    let t1 = t0 + TLS@;
    let t2 = t1 + UNIX_SOCKETS@;
    let t3 = t2 + FILE_ASYNC@;
    let t4 = t3 + FILES@;
    let t5 = t4 + SHIMS@;
    let t6 = t5 + STRINGS@;
    let t7 = t6 + RANDOM_AND_ARGS@;
    let t8 = t7 + STRING_SLICES@;
    let t9 = t8 + PROCESSES@;
    let t10 = t9 + FILE_TREES@;
    let t11 = t10 + UDP@;
    let t12 = t11 + LINUX_EVENTS@;
    let t13 = t12 + PORTABLE_EVENTS@;
    assert(v.take(1) =~= seq![v[0]]);
    assert(all_of(v.take(1)) == t0);
    assert(v.take(2).drop_last() =~= v.take(1));
    assert(all_of(v.take(2)) == t1);
    assert(v.take(3).drop_last() =~= v.take(2));
    assert(all_of(v.take(3)) == t2);
    assert(v.take(4).drop_last() =~= v.take(3));
    assert(all_of(v.take(4)) == t3);
    assert(v.take(5).drop_last() =~= v.take(4));
    assert(all_of(v.take(5)) == t4);
    assert(v.take(6).drop_last() =~= v.take(5));
    assert(all_of(v.take(6)) == t5);
    assert(v.take(7).drop_last() =~= v.take(6));
    assert(all_of(v.take(7)) == t6);
    assert(v.take(8).drop_last() =~= v.take(7));
    assert(all_of(v.take(8)) == t7);
    assert(v.take(9).drop_last() =~= v.take(8));
    assert(all_of(v.take(9)) == t8);
    assert(v.take(10).drop_last() =~= v.take(9));
    assert(all_of(v.take(10)) == t9);
    assert(v.take(11).drop_last() =~= v.take(10));
    assert(all_of(v.take(11)) == t10);
    assert(v.take(12).drop_last() =~= v.take(11));
    assert(all_of(v.take(12)) == t11);
    assert(v.take(13).drop_last() =~= v.take(12));
    assert(all_of(v.take(13)) == t12);
    assert(v.take(14).drop_last() =~= v.take(13));
    assert(all_of(v.take(14)) == t13);
    assert(v.take(14) =~= v);
}

/// The run-time support and the socket helpers hold all of their parts, in their order.
pub proof fn law_runtime_holds_its_parts(i: int, j: int)
    ensures
        module::hosted_runtime() == all_of(runtime_parts()),
        module::socket_helpers() == all_of(socket_parts()),
        0 <= i < runtime_parts().len() ==> text::has_part(module::hosted_runtime(),
            runtime_parts()[i]),
        0 <= j < socket_parts().len() ==> text::has_part(module::socket_helpers(),
            socket_parts()[j]),
{
    lemma_runtime_parts();
    lemma_socket_parts();
    if 0 <= i < runtime_parts().len() {
        law_all_of_holds_each(runtime_parts(), i);
    }
    if 0 <= j < socket_parts().len() {
        law_all_of_holds_each(socket_parts(), j);
    }
}

/// A prologue is the banner, the headers of its kind, those that the program asks for, and the
/// run-time support of its kind.
pub proof fn law_prologue(headers: Seq<String>)
    ensures
        module::prologue_text(headers, true) == all_of(
            seq![
                BANNER@,
                FREESTANDING_HEADERS@,
                module::headers_text(headers, headers.len()),
                FREESTANDING_RUNTIME@,
            ],
        ),
        module::prologue_text(headers, false) == all_of(
            seq![
                BANNER@,
                PLATFORM_HEADERS@,
                module::headers_text(headers, headers.len()),
                module::hosted_runtime(),
            ],
        ),
{
    let h = module::headers_text(headers, headers.len());
    let a = seq![BANNER@, FREESTANDING_HEADERS@, h, FREESTANDING_RUNTIME@];
    let b = seq![BANNER@, PLATFORM_HEADERS@, h, module::hosted_runtime()];
    lemma_four(a);
    lemma_four(b);
}

proof fn lemma_four(v: Seq<Seq<char>>)
    requires
        v.len() == 4,
    ensures
        all_of(v) == v[0] + v[1] + v[2] + v[3],
{
    assert(v.drop_last().drop_last().drop_last() =~= seq![v[0]]);
    reveal_with_fuel(all_of, 5);
}

/// A directory listing and a split text are slices with the number of elements that the call
/// gives; a wait with a limit gives the position of the one that is ready.
pub proof fn law_calls_that_give_slices(sym: SymTab, args: Seq<HExpr>, t: Seq<Seq<char>>)
    requires
        t.len() == 2,
        args.len() == 2,
    ensures
        builtins::builtin_c(sym, Builtin::StrSplit, args, t) == "(__extension__ ({ "@
            + "int64_t __n; "@ + (
        "const char** __p = "@ + builtin_laws::called(
            "__maka_rt_str_split"@,
            seq![builtin_laws::in_parens(t[0]), builtin_laws::in_parens(t[1]), "&__n"@],
        ) + "; "@) + "(Slice_str){ .ptr = __p, .len = (maka_int)__n }; }))"@,
        builtins::builtin_c(sym, Builtin::FileListdir, args, seq![t[0]]) == "(__extension__ ({ "@
            + "int64_t __n; "@ + ("const char** __p = "@ + builtin_laws::called(
            "__maka_rt_file_listdir"@,
            seq![builtin_laws::in_parens(t[0]), "&__n"@],
        ) + "; "@) + "(Slice_str){ .ptr = __p, .len = (maka_int)__n }; }))"@,
        builtins::builtin_c(sym, Builtin::SelectTimeout, args, t)
            == "({ int64_t __out_i = -1; (void)"@
            + builtin_laws::called(
            "__maka_select_timeout_i64"@,
            seq![
                builtin_laws::cast_to("maka_unit**"@,
                    builtin_laws::member_of(builtin_laws::in_parens(t[0]), "ptr"@)),
                builtin_laws::member_of(builtin_laws::in_parens(t[0]), "len"@),
                builtin_laws::cast_to("int64_t"@, builtin_laws::in_parens(t[1])),
                "&__out_i"@,
            ],
        ) + "; __out_i; })"@,
        builtins::builtin_at(43) == Some(Builtin::FileListdir),
        builtins::builtin_at(44) == Some(Builtin::StrSplit),
        builtins::builtin_at(26) == Some(Builtin::SelectTimeout),
        builtins::builtin_at(0) == Some(Builtin::Log),
        builtins::builtin_at(58) == Some(Builtin::Printf),
        builtins::builtin_at(59) == Some(Builtin::Format),
        builtins::builtin_at(60) == Some(Builtin::Push),
        builtins::builtin_at(61) == Some(Builtin::Pop),
{
    lemma_split_text(t[0], t[1]);
    lemma_list_text(t[0]);
    lemma_select_text(t[0], t[1]);
}

proof fn lemma_split_text(a: Seq<char>, b: Seq<char>)
    ensures
        "(__extension__ ({ int64_t __n; const char** __p = __maka_rt_str_split(("@ + a + "), ("@ + b
            + "), &__n); (Slice_str){ .ptr = __p, .len = (maka_int)__n }; }))"@
            == "(__extension__ ({ "@ + "int64_t __n; "@ + ("const char** __p = "@
                + builtin_laws::called(
            "__maka_rt_str_split"@,
            seq![builtin_laws::in_parens(a), builtin_laws::in_parens(b), "&__n"@],
        ) + "; "@) + "(Slice_str){ .ptr = __p, .len = (maka_int)__n }; }))"@,
{
    broadcast use pieces::lemma_put_together;

    builtin_laws::lemma_called_3("__maka_rt_str_split"@, builtin_laws::in_parens(a),
        builtin_laws::in_parens(b), "&__n"@);
    reveal_strlit("(__extension__ ({ int64_t __n; const char** __p = __maka_rt_str_split((");
    reveal_strlit("(__extension__ ({ ");
    reveal_strlit("int64_t __n; ");
    reveal_strlit("const char** __p = ");
    reveal_strlit("__maka_rt_str_split");
    reveal_strlit("(");
    reveal_strlit("), (");
    reveal_strlit(")");
    reveal_strlit(", ");
    reveal_strlit("), &__n); (Slice_str){ .ptr = __p, .len = (maka_int)__n }; }))");
    reveal_strlit("&__n");
    reveal_strlit("; ");
    reveal_strlit("(Slice_str){ .ptr = __p, .len = (maka_int)__n }; }))");
    assert("(__extension__ ({ int64_t __n; const char** __p = __maka_rt_str_split(("@
        =~= "(__extension__ ({ "@ + "int64_t __n; "@ + "const char** __p = "@
        + "__maka_rt_str_split"@ + "("@ + "("@);
    assert("), ("@ =~= ")"@ + ", "@ + "("@);
    assert("), &__n); (Slice_str){ .ptr = __p, .len = (maka_int)__n }; }))"@ =~= ")"@ + ", "@
        + "&__n"@ + ")"@ + "; "@ + "(Slice_str){ .ptr = __p, .len = (maka_int)__n }; }))"@);
}

proof fn lemma_list_text(a: Seq<char>)
    ensures
        "(__extension__ ({ int64_t __n; const char** __p = __maka_rt_file_listdir(("@ + a
            + "), &__n); (Slice_str){ .ptr = __p, .len = (maka_int)__n }; }))"@
            == "(__extension__ ({ "@ + "int64_t __n; "@ + ("const char** __p = "@
                + builtin_laws::called(
            "__maka_rt_file_listdir"@,
            seq![builtin_laws::in_parens(a), "&__n"@],
        ) + "; "@) + "(Slice_str){ .ptr = __p, .len = (maka_int)__n }; }))"@,
{
    broadcast use pieces::lemma_put_together;

    builtin_laws::lemma_called_2("__maka_rt_file_listdir"@, builtin_laws::in_parens(a), "&__n"@);
    reveal_strlit("(__extension__ ({ int64_t __n; const char** __p = __maka_rt_file_listdir((");
    reveal_strlit("(__extension__ ({ ");
    reveal_strlit("int64_t __n; ");
    reveal_strlit("const char** __p = ");
    reveal_strlit("__maka_rt_file_listdir");
    reveal_strlit("(");
    reveal_strlit(")");
    reveal_strlit(", ");
    reveal_strlit("), &__n); (Slice_str){ .ptr = __p, .len = (maka_int)__n }; }))");
    reveal_strlit("&__n");
    reveal_strlit("; ");
    reveal_strlit("(Slice_str){ .ptr = __p, .len = (maka_int)__n }; }))");
    assert("(__extension__ ({ int64_t __n; const char** __p = __maka_rt_file_listdir(("@
        =~= "(__extension__ ({ "@ + "int64_t __n; "@ + "const char** __p = "@
        + "__maka_rt_file_listdir"@ + "("@ + "("@);
    assert("), &__n); (Slice_str){ .ptr = __p, .len = (maka_int)__n }; }))"@ =~= ")"@ + ", "@
        + "&__n"@ + ")"@ + "; "@ + "(Slice_str){ .ptr = __p, .len = (maka_int)__n }; }))"@);
}

proof fn lemma_select_text(a: Seq<char>, b: Seq<char>)
    ensures
        "({ int64_t __out_i = -1; (void)__maka_select_timeout_i64((maka_unit**)("@ + a + ").ptr, ("@
            + a
            + ").len, (int64_t)("@ + b + "), &__out_i); __out_i; })"@
            == "({ int64_t __out_i = -1; (void)"@ + builtin_laws::called(
            "__maka_select_timeout_i64"@,
            seq![
                builtin_laws::cast_to("maka_unit**"@,
                    builtin_laws::member_of(builtin_laws::in_parens(a), "ptr"@)),
                builtin_laws::member_of(builtin_laws::in_parens(a), "len"@),
                builtin_laws::cast_to("int64_t"@, builtin_laws::in_parens(b)),
                "&__out_i"@,
            ],
        ) + "; __out_i; })"@,
{
    broadcast use pieces::lemma_put_together;

    builtin_laws::lemma_called_4(
        "__maka_select_timeout_i64"@,
        builtin_laws::cast_to("maka_unit**"@, builtin_laws::member_of(builtin_laws::in_parens(a),
            "ptr"@)),
        builtin_laws::member_of(builtin_laws::in_parens(a), "len"@),
        builtin_laws::cast_to("int64_t"@, builtin_laws::in_parens(b)),
        "&__out_i"@,
    );
    reveal_strlit("({ int64_t __out_i = -1; (void)__maka_select_timeout_i64((maka_unit**)(");
    reveal_strlit("({ int64_t __out_i = -1; (void)");
    reveal_strlit("__maka_select_timeout_i64");
    reveal_strlit("(");
    reveal_strlit("maka_unit**");
    reveal_strlit(")");
    reveal_strlit(").ptr, (");
    reveal_strlit(".");
    reveal_strlit("ptr");
    reveal_strlit(", ");
    reveal_strlit(").len, (int64_t)(");
    reveal_strlit("len");
    reveal_strlit("int64_t");
    reveal_strlit("), &__out_i); __out_i; })");
    reveal_strlit("&__out_i");
    reveal_strlit("; __out_i; })");
    assert("({ int64_t __out_i = -1; (void)__maka_select_timeout_i64((maka_unit**)("@
        =~= "({ int64_t __out_i = -1; (void)"@ + "__maka_select_timeout_i64"@ + "("@ + "("@
        + "maka_unit**"@ + ")"@ + "("@);
    assert(").ptr, ("@ =~= ")"@ + "."@ + "ptr"@ + ", "@ + "("@);
    assert(").len, (int64_t)("@ =~= ")"@ + "."@ + "len"@ + ", "@ + "("@ + "int64_t"@ + ")"@ + "("@);
    assert("), &__out_i); __out_i; })"@ =~= ")"@ + ", "@ + "&__out_i"@ + ")"@ + "; __out_i; })"@);
}

/// The C order that a number asks for in a fence.
pub open spec fn fence_order(n: int) -> Seq<char> {
    if n == 1 {
        "__ATOMIC_ACQUIRE"@
    } else if n == 2 {
        "__ATOMIC_RELEASE"@
    } else if n == 3 {
        "__ATOMIC_ACQ_REL"@
    } else {
        "__ATOMIC_SEQ_CST"@
    }
}

/// A fence has the order that its argument asks for.
pub proof fn law_fence_has_its_order(sym: SymTab, args: Seq<HExpr>, x: Piece)
    ensures
        ({
            let is = |n: int, e: Seq<char>| pieces::paren(pieces::binary("=="@, pieces::paren(x),
                pieces::constant(e, Val::Num(n))));
            let order = pieces::pick(
                is(1, "1"@),
                pieces::constant(fence_order(1), Val::Num(1)),
                pieces::pick(
                    is(2, "2"@),
                    pieces::constant(fence_order(2), Val::Num(2)),
                    pieces::pick(
                        is(3, "3"@),
                        pieces::constant(fence_order(3), Val::Num(3)),
                        pieces::constant(fence_order(0), Val::Num(0)),
                    ),
                ),
            );
            builtins::builtin_c(sym, Builtin::AtomicFence, args, seq![x.text])
                == builtin_laws::as_unit(
                builtin_laws::called("__atomic_thread_fence"@, seq![order.text]),
            )
        }),
{
    lemma_fence_text(x.text);
    let t = x.text;
    let is = |n: int, e: Seq<char>| pieces::paren(pieces::binary("=="@, pieces::paren(x),
        pieces::constant(e, Val::Num(n))));
    let order = pieces::pick(
        is(1, "1"@),
        pieces::constant(fence_order(1), Val::Num(1)),
        pieces::pick(
            is(2, "2"@),
            pieces::constant(fence_order(2), Val::Num(2)),
            pieces::pick(
                is(3, "3"@),
                pieces::constant(fence_order(3), Val::Num(3)),
                pieces::constant(fence_order(0), Val::Num(0)),
            ),
        ),
    );
    assert(order.text == fence_text(t));
    builtin_laws::lemma_called_1("__atomic_thread_fence"@, order.text);
    lemma_fence_words(fence_text(t));
}

/// The choice of an order by the value of a text.
pub open spec fn fence_text(t: Seq<char>) -> Seq<char> {
    "("@ + ("("@ + t + ")"@ + " "@ + "=="@ + " "@ + "1"@) + ")"@ + " ? "@ + "__ATOMIC_ACQUIRE"@
        + " : "@ + ("("@ + ("("@ + t + ")"@ + " "@ + "=="@ + " "@ + "2"@) + ")"@ + " ? "@
        + "__ATOMIC_RELEASE"@ + " : "@ + ("("@ + ("("@ + t + ")"@ + " "@ + "=="@ + " "@ + "3"@)
            + ")"@
        + " ? "@ + "__ATOMIC_ACQ_REL"@ + " : "@ + "__ATOMIC_SEQ_CST"@))
}

proof fn lemma_fence_words(o: Seq<char>)
    ensures
        "(__atomic_thread_fence("@ + o + "), MAKA_UNIT)"@ == builtin_laws::as_unit(
            "__atomic_thread_fence"@ + "("@ + o + ")"@,
        ),
{
    broadcast use pieces::lemma_put_together;

    reveal_strlit("(__atomic_thread_fence(");
    reveal_strlit("(");
    reveal_strlit("__atomic_thread_fence");
    reveal_strlit("), MAKA_UNIT)");
    reveal_strlit(")");
    reveal_strlit(", MAKA_UNIT)");
    assert("(__atomic_thread_fence("@ =~= "("@ + "__atomic_thread_fence"@ + "("@);
    assert("), MAKA_UNIT)"@ =~= ")"@ + ", MAKA_UNIT)"@);
}

proof fn lemma_fence_text(t: Seq<char>)
    ensures
        "(__atomic_thread_fence((("@ + t + ") == 1) ? __ATOMIC_ACQUIRE : (("@ + t
            + ") == 2) ? __ATOMIC_RELEASE : (("@ + t
            + ") == 3) ? __ATOMIC_ACQ_REL : __ATOMIC_SEQ_CST), MAKA_UNIT)"@
            == "(__atomic_thread_fence("@ + fence_text(t) + "), MAKA_UNIT)"@,
{
    broadcast use pieces::lemma_put_together;

    reveal_strlit("(__atomic_thread_fence(((");
    reveal_strlit("(__atomic_thread_fence(");
    reveal_strlit("(");
    reveal_strlit(") == 1) ? __ATOMIC_ACQUIRE : ((");
    reveal_strlit(")");
    reveal_strlit(" ");
    reveal_strlit("==");
    reveal_strlit("1");
    reveal_strlit(" ? ");
    reveal_strlit("__ATOMIC_ACQUIRE");
    reveal_strlit(" : ");
    reveal_strlit(") == 2) ? __ATOMIC_RELEASE : ((");
    reveal_strlit("2");
    reveal_strlit("__ATOMIC_RELEASE");
    reveal_strlit(") == 3) ? __ATOMIC_ACQ_REL : __ATOMIC_SEQ_CST), MAKA_UNIT)");
    reveal_strlit("3");
    reveal_strlit("__ATOMIC_ACQ_REL");
    reveal_strlit("__ATOMIC_SEQ_CST");
    reveal_strlit("), MAKA_UNIT)");
    assert("(__atomic_thread_fence((("@ =~= "(__atomic_thread_fence("@ + "("@ + "("@);
    assert(") == 1) ? __ATOMIC_ACQUIRE : (("@ =~= ")"@ + " "@ + "=="@ + " "@ + "1"@ + ")"@ + " ? "@
        + "__ATOMIC_ACQUIRE"@ + " : "@ + "("@ + "("@);
    assert(") == 2) ? __ATOMIC_RELEASE : (("@ =~= ")"@ + " "@ + "=="@ + " "@ + "2"@ + ")"@ + " ? "@
        + "__ATOMIC_RELEASE"@ + " : "@ + "("@ + "("@);
    assert(") == 3) ? __ATOMIC_ACQ_REL : __ATOMIC_SEQ_CST), MAKA_UNIT)"@ =~= ")"@ + " "@ + "=="@
        + " "@ + "3"@ + ")"@ + " ? "@ + "__ATOMIC_ACQ_REL"@ + " : "@ + "__ATOMIC_SEQ_CST"@
        + "), MAKA_UNIT)"@);
}

/// A built-in function that is given nothing is written as the empty value of its result.
pub proof fn law_builtin_without_arguments(sym: SymTab, b: Builtin, args: Seq<HExpr>)
    ensures
        ({
            let text = builtins::builtin_c(sym, b, args, Seq::empty());
            match b {
                Builtin::Log
                | Builtin::Free
                | Builtin::Join
                | Builtin::JoinAll
                | Builtin::Select
                | Builtin::Cancel
                | Builtin::OnceDo
                | Builtin::Detach
                | Builtin::ParForRange
                | Builtin::ParForEach
                | Builtin::ParForEachFloat
                | Builtin::AtomicStore
                | Builtin::AtomicFence => text == "MAKA_UNIT"@,
                Builtin::Panic => text == "(maka_panic(\"\"), MAKA_UNIT)"@,
                Builtin::Concat
                | Builtin::ConcatFreeLeft
                | Builtin::ConcatFreeRight
                | Builtin::ConcatFreeBoth
                | Builtin::IntToStr
                | Builtin::BoolToStr
                | Builtin::FloatToStr
                | Builtin::CharToStr => text == "((char*)0)"@,
                Builtin::FileListdir
                | Builtin::StrSplit => text == "(Slice_str){0}"@,
                Builtin::Spawn
                | Builtin::Thread
                | Builtin::Job
                | Builtin::SpawnPool
                | Builtin::ParMapBytes
                | Builtin::ParFilterBytes
                | Builtin::ParScanBytes => text == "NULL"@,
                Builtin::TryJoin
                | Builtin::JoinTimeout
                | Builtin::ParReduceRange
                | Builtin::ParReduceInt
                | Builtin::AtomicCas
                | Builtin::AtomicLoad
                | Builtin::AtomicAdd
                | Builtin::AtomicSub
                | Builtin::AtomicAnd
                | Builtin::AtomicOr
                | Builtin::AtomicXor
                | Builtin::FutexWait
                | Builtin::FutexWake => text == "0"@,
                Builtin::SelectTimeout => text == "(-1)"@,
                Builtin::ParMapRange
                | Builtin::ParMapInt
                | Builtin::ParFilterInt
                | Builtin::ParScanInt => text
                    == "((Vec_maka_int){ .data = NULL, .len = 0, .cap = 0 })"@,
                Builtin::ParMapFloat => text
                    == "((Vec_maka_float){ .data = NULL, .len = 0, .cap = 0 })"@,
                Builtin::ParReduceFloat => text == "0.0"@,
                Builtin::ParFilterFloat
                | Builtin::ParScanFloat => text == "(Slice_maka_float){0}"@,
                _ => true,
            }
        }),
{
}

/// The test of a variant holds where all tests of it hold.
pub proof fn law_variant_predicate(
    sym: SymTab,
    enum_id: EnumId,
    variant: usize,
    bindings: Vec<Option<LocalId>>,
    shorter: Vec<Option<HExpr>>,
    longer: Vec<Option<HExpr>>,
    check: Option<HExpr>,
)
    requires
        longer@ == shorter@.push(check),
    ensures
        ({
            let some = patterns::predicate_text(
                sym,
                HArmKind::Variant { enum_id, variant, bindings, lit_checks: shorter },
            );
            let more = patterns::predicate_text(
                sym,
                HArmKind::Variant { enum_id, variant, bindings, lit_checks: longer },
            );
            let v = sym.enums@[enum_id.0 as int].variants@[variant as int];
            &&& check is None ==> more == some
            &&& check matches Some(c) ==> more == some + " && "@ + pieces::paren(
                pieces::binary(
                    "=="@,
                    pieces::dot(
                        pieces::dot(pieces::dot(pieces::a_name("__s"@), "payload"@),
                            text::ident(v.name@)),
                        text::ident(v.fields@[shorter@.len() as int].name@),
                    ),
                    pieces::constant(operators::literal_text(c), Val::Odd),
                ),
            ).text
            &&& shorter@.len() == 0 ==> some == patterns::variant_tests(
                sym.enums@[enum_id.0 as int],
                v,
                shorter@,
                0,
            )[0]
        }),
{
    let e = sym.enums@[enum_id.0 as int];
    let v = e.variants@[variant as int];
    let n = shorter@.len();
    lemma_same_tests(e, v, shorter@, longer@, n);
    let a = patterns::variant_tests(e, v, shorter@, n);
    let b = patterns::variant_tests(e, v, longer@, n + 1);
    assert(longer@[n as int] == check);
    assert(((n + 1) - 1) as nat == n);
    match_laws::law_variant_tests(sym, e, v, longer@, n + 1, n as int);
    match_laws::law_variant_tests(sym, e, v, shorter@, n, -1);
    if check is Some {
        assert(b == a.push(b.last()));
        assert(b.drop_last() =~= a);
        lemma_count_same(shorter@, longer@, n);
        match_laws::law_variant_tests(sym, e, v, longer@, n, -1);
        assert(b.len() == a.len() + 1);
        assert(b.last() == b[(1 + match_laws::count_checks(longer@, n)) as int]);
    }
}

proof fn lemma_count_same(a: Seq<Option<HExpr>>, b: Seq<Option<HExpr>>, n: nat)
    requires
        n <= a.len() <= b.len(),
        forall|i: int| 0 <= i < n ==> a[i] == b[i],
    ensures
        match_laws::count_checks(a, n) == match_laws::count_checks(b, n),
    decreases n,
{
    if n > 0 {
        lemma_count_same(a, b, (n - 1) as nat);
    }
}

proof fn lemma_same_tests(
    e: EnumInfo,
    v: VariantInfo,
    a: Seq<Option<HExpr>>,
    b: Seq<Option<HExpr>>,
    n: nat,
)
    requires
        n <= a.len() <= b.len(),
        forall|i: int| 0 <= i < n ==> a[i] == b[i],
    ensures
        patterns::variant_tests(e, v, a, n) == patterns::variant_tests(e, v, b, n),
    decreases n,
{
    if n > 0 {
        lemma_same_tests(e, v, a, b, (n - 1) as nat);
    }
}

/// A key that begins with the mark of a pointer stands for a pointer to what the rest stands
/// for.
pub proof fn law_keys_of_pointers(k: Seq<char>)
    ensures
        ctypes::key_c("p_"@ + k) == ctypes::key_c(k) + "*"@,
        ctypes::key_c("pm_"@ + k) == ctypes::key_c(k) + "*"@,
        ctypes::key_c("pc_"@ + k) == "const "@ + ctypes::key_c(k) + "*"@,
        ctypes::key_c("maka_int"@) == "maka_int"@,
        ctypes::key_c("maka_unit"@) == "maka_unit"@,
{
    reveal_strlit("p_");
    reveal_strlit("pm_");
    reveal_strlit("pc_");
    reveal_strlit("str");
    reveal_strlit("maka_int");
    reveal_strlit("maka_unit");
    assert(("p_"@ + k).take(2) =~= "p_"@ && ("p_"@ + k).skip(2) =~= k);
    let m = "pm_"@ + k;
    assert(m.take(3) =~= "pm_"@ && m.skip(3) =~= k && m.take(2)[1] == 'm');
    let c = "pc_"@ + k;
    assert(c.take(3) =~= "pc_"@ && c.skip(3) =~= k && c.take(2)[1] == 'c' && c.take(3)[1] == 'c');
    assert("maka_int"@.take(2)[0] == 'm' && "maka_int"@.take(3)[0] == 'm');
    assert("maka_unit"@.take(2)[0] == 'm' && "maka_unit"@.take(3)[0] == 'm');
    assert("maka_int"@.len() == 8 && "maka_unit"@.len() == 9 && "str"@.len() == 3);
}

/// A step that sets nothing does nothing, and a program without `main` ends at once; of several
/// functions of that name the first is run.
pub proof fn law_nothing_to_do(d: nat, cx: Cx, st: St, step: HStmt, sym: SymTab, i: int)
    ensures
        !(step is Assign) ==> lowered::step_c(d, cx, st, step) == (Out { text: "(void)0"@, st }),
        (forall|j: int| 0 <= j < sym.funcs@.len() ==> !program_main(sym, #[trigger] sym.funcs@[j]))
            ==> module::main_text(sym) == text::line_c(""@, "int main(void) { return 0; }"@),
        0 <= i < sym.funcs@.len() && program_main(sym, sym.funcs@[i]) && (forall|j: int|
            0 <= j < i ==> !program_main(sym, #[trigger] sym.funcs@[j])) ==> module::main_from(sym,
                0) == Some(
            sym.funcs@[i],
        ),
{
    reveal(lowered::step_c);
    lemma_main_from(sym, i, 0);
}

/// The function is the program's `main`.
pub open spec fn program_main(sym: SymTab, f: HFunc) -> bool {
    f.name@ == "main"@ && sym.the_sig(f.id).type_params@.len() == 0
}

proof fn lemma_main_from(sym: SymTab, i: int, from: nat)
    ensures
        (forall|j: int| from <= j < sym.funcs@.len() ==> !program_main(sym,
            #[trigger] sym.funcs@[j]))
            ==> module::main_from(sym, from) is None,
        from <= i < sym.funcs@.len() && program_main(sym, sym.funcs@[i]) && (forall|j: int|
            from <= j < i ==> !program_main(sym, #[trigger] sym.funcs@[j]))
                ==> module::main_from(sym, from)
            == Some(sym.funcs@[i]),
    decreases sym.funcs@.len() - from,
{
    if from < sym.funcs@.len() {
        let f = sym.funcs@[from as int];
        lemma_main_from(sym, i, from + 1);
    }
}

/// A line is its indentation, its text and a newline; a deeper line stands four blanks further
/// in.
pub proof fn law_lines_and_indentation(ind: Seq<char>, text: Seq<char>)
    ensures
        ({
            let line = text::line_c(ind, text);
            &&& line.len() == ind.len() + text.len() + 1
            &&& line.take(ind.len() as int) == ind
            &&& line.skip(ind.len() as int).take(text.len() as int) == text
            &&& line.last() == '\n'
        }),
        text::deeper_c(ind).len() == ind.len() + 4,
        text::deeper_c(ind).take(ind.len() as int) == ind,
        forall|i: int| ind.len() <= i < ind.len() + 4 ==> #[trigger] text::deeper_c(ind)[i] == ' ',
{
    reveal_strlit("\n");
    reveal_strlit("    ");
    let line = text::line_c(ind, text);
    assert(line.take(ind.len() as int) =~= ind);
    assert(line.skip(ind.len() as int).take(text.len() as int) =~= text);
    assert(text::deeper_c(ind).take(ind.len() as int) =~= ind);
}

/// Inside an expansion the code is that of the inline function, under its own names, and no
/// counter of the caller is known; inside a block only the indentation changes.
pub proof fn law_context_of_an_expansion(cx: Cx, g: HFunc, tag: Seq<char>, wanted: bool)
    ensures
        ({
            let inner = cx.inside(g, tag, wanted);
            &&& inner.f == g && inner.tag == Some(tag) && inner.wanted == wanted
            &&& inner.bounded.len() == 0
            &&& inner.sym == cx.sym && inner.owns == cx.owns && inner.ind == cx.ind
            &&& inner.spliced()
        }),
        ({
            let block = cx.nested();
            &&& block.f == cx.f && block.tag == cx.tag && block.wanted == cx.wanted
            &&& block.bounded == cx.bounded && block.sym == cx.sym && block.owns == cx.owns
            &&& block.ind == text::deeper_c(cx.ind)
        }),
        cx.spliced() <==> cx.tag is Some,
{
}

} // verus!
