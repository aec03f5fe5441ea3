//! Calls of built-in functions: their numbers, how many of their arguments are
//! evaluated, and the C expression each becomes.
use vstd::prelude::*;

use crate::ctypes;
use crate::ctypes::c_type;
use crate::hir::{FuncId, HExpr, HExprKind, SymTab};
use crate::operators;
use crate::operators::{log_helper, printf_conv};
use crate::text;
use crate::text::{cat11, cat3, cat5, cat7, cat9, join, no_parts, own, push_part};

verus! {

/// A built-in function.
#[derive(Debug, Clone, Copy, PartialEq, Eq, Structural)]
pub enum Builtin {
    Log,
    Free,
    Panic,
    Spawn,
    Join,
    Concat,
    ReadLine,
    ReadInt,
    ConcatFreeLeft,
    ConcatFreeRight,
    ConcatFreeBoth,
    IntToStr,
    BoolToStr,
    FloatToStr,
    CharToStr,
    Thread,
    Job,
    JoinAll,
    Select,
    ParForRange,
    YieldNow,
    ParReduceRange,
    ParMapRange,
    Cancel,
    TryJoin,
    JoinTimeout,
    SelectTimeout,
    ParForEach,
    ParMapInt,
    ParReduceInt,
    ParFilterInt,
    ParScanInt,
    OnceDo,
    Detach,
    ParForEachFloat,
    ParMapFloat,
    ParReduceFloat,
    SpawnPool,
    ParMapBytes,
    ParFilterFloat,
    ParScanFloat,
    ParFilterBytes,
    ParScanBytes,
    FileListdir,
    StrSplit,
    AtomicCas,
    AtomicLoad,
    AtomicStore,
    AtomicAdd,
    AtomicSub,
    AtomicAnd,
    AtomicOr,
    AtomicXor,
    AtomicFence,
    FutexWait,
    FutexWake,
    ThreadYield,
    Syscall,
    Printf,
    Format,
    Push,
    Pop,
}

/// The built-in that stands `k` below the highest function number.
pub open spec fn builtin_at(k: u32) -> Option<Builtin> {
    match k {
        0u32 => Some(Builtin::Log),
        1u32 => Some(Builtin::Free),
        2u32 => Some(Builtin::Panic),
        3u32 => Some(Builtin::Spawn),
        4u32 => Some(Builtin::Join),
        5u32 => Some(Builtin::Concat),
        6u32 => Some(Builtin::ReadLine),
        7u32 => Some(Builtin::ReadInt),
        8u32 => Some(Builtin::ConcatFreeLeft),
        9u32 => Some(Builtin::ConcatFreeRight),
        10u32 => Some(Builtin::ConcatFreeBoth),
        11u32 => Some(Builtin::IntToStr),
        12u32 => Some(Builtin::BoolToStr),
        13u32 => Some(Builtin::FloatToStr),
        14u32 => Some(Builtin::CharToStr),
        15u32 => Some(Builtin::Thread),
        16u32 => Some(Builtin::Job),
        17u32 => Some(Builtin::JoinAll),
        18u32 => Some(Builtin::Select),
        19u32 => Some(Builtin::ParForRange),
        20u32 => Some(Builtin::YieldNow),
        21u32 => Some(Builtin::ParReduceRange),
        22u32 => Some(Builtin::ParMapRange),
        23u32 => Some(Builtin::Cancel),
        24u32 => Some(Builtin::TryJoin),
        25u32 => Some(Builtin::JoinTimeout),
        26u32 => Some(Builtin::SelectTimeout),
        27u32 => Some(Builtin::ParForEach),
        28u32 => Some(Builtin::ParMapInt),
        29u32 => Some(Builtin::ParReduceInt),
        30u32 => Some(Builtin::ParFilterInt),
        31u32 => Some(Builtin::ParScanInt),
        32u32 => Some(Builtin::OnceDo),
        33u32 => Some(Builtin::Detach),
        34u32 => Some(Builtin::ParForEachFloat),
        35u32 => Some(Builtin::ParMapFloat),
        36u32 => Some(Builtin::ParReduceFloat),
        37u32 => Some(Builtin::SpawnPool),
        38u32 => Some(Builtin::ParMapBytes),
        39u32 => Some(Builtin::ParFilterFloat),
        40u32 => Some(Builtin::ParScanFloat),
        41u32 => Some(Builtin::ParFilterBytes),
        42u32 => Some(Builtin::ParScanBytes),
        43u32 => Some(Builtin::FileListdir),
        44u32 => Some(Builtin::StrSplit),
        45u32 => Some(Builtin::AtomicCas),
        46u32 => Some(Builtin::AtomicLoad),
        47u32 => Some(Builtin::AtomicStore),
        48u32 => Some(Builtin::AtomicAdd),
        49u32 => Some(Builtin::AtomicSub),
        50u32 => Some(Builtin::AtomicAnd),
        51u32 => Some(Builtin::AtomicOr),
        52u32 => Some(Builtin::AtomicXor),
        53u32 => Some(Builtin::AtomicFence),
        54u32 => Some(Builtin::FutexWait),
        55u32 => Some(Builtin::FutexWake),
        56u32 => Some(Builtin::ThreadYield),
        57u32 => Some(Builtin::Syscall),
        58u32 => Some(Builtin::Printf),
        59u32 => Some(Builtin::Format),
        60u32 => Some(Builtin::Push),
        61u32 => Some(Builtin::Pop),
        _ => None,
    }
}

/// The built-in that a function number names.
pub open spec fn builtin_of(id: FuncId) -> Option<Builtin> {
    builtin_at((u32::MAX - id.0) as u32)
}

/// Looks up a built-in by its id.
pub fn builtin(id: FuncId) -> (r: Option<Builtin>)
    ensures
        r == builtin_of(id),
{
    match u32::MAX - id.0 {
        0u32 => Some(Builtin::Log),
        1u32 => Some(Builtin::Free),
        2u32 => Some(Builtin::Panic),
        3u32 => Some(Builtin::Spawn),
        4u32 => Some(Builtin::Join),
        5u32 => Some(Builtin::Concat),
        6u32 => Some(Builtin::ReadLine),
        7u32 => Some(Builtin::ReadInt),
        8u32 => Some(Builtin::ConcatFreeLeft),
        9u32 => Some(Builtin::ConcatFreeRight),
        10u32 => Some(Builtin::ConcatFreeBoth),
        11u32 => Some(Builtin::IntToStr),
        12u32 => Some(Builtin::BoolToStr),
        13u32 => Some(Builtin::FloatToStr),
        14u32 => Some(Builtin::CharToStr),
        15u32 => Some(Builtin::Thread),
        16u32 => Some(Builtin::Job),
        17u32 => Some(Builtin::JoinAll),
        18u32 => Some(Builtin::Select),
        19u32 => Some(Builtin::ParForRange),
        20u32 => Some(Builtin::YieldNow),
        21u32 => Some(Builtin::ParReduceRange),
        22u32 => Some(Builtin::ParMapRange),
        23u32 => Some(Builtin::Cancel),
        24u32 => Some(Builtin::TryJoin),
        25u32 => Some(Builtin::JoinTimeout),
        26u32 => Some(Builtin::SelectTimeout),
        27u32 => Some(Builtin::ParForEach),
        28u32 => Some(Builtin::ParMapInt),
        29u32 => Some(Builtin::ParReduceInt),
        30u32 => Some(Builtin::ParFilterInt),
        31u32 => Some(Builtin::ParScanInt),
        32u32 => Some(Builtin::OnceDo),
        33u32 => Some(Builtin::Detach),
        34u32 => Some(Builtin::ParForEachFloat),
        35u32 => Some(Builtin::ParMapFloat),
        36u32 => Some(Builtin::ParReduceFloat),
        37u32 => Some(Builtin::SpawnPool),
        38u32 => Some(Builtin::ParMapBytes),
        39u32 => Some(Builtin::ParFilterFloat),
        40u32 => Some(Builtin::ParScanFloat),
        41u32 => Some(Builtin::ParFilterBytes),
        42u32 => Some(Builtin::ParScanBytes),
        43u32 => Some(Builtin::FileListdir),
        44u32 => Some(Builtin::StrSplit),
        45u32 => Some(Builtin::AtomicCas),
        46u32 => Some(Builtin::AtomicLoad),
        47u32 => Some(Builtin::AtomicStore),
        48u32 => Some(Builtin::AtomicAdd),
        49u32 => Some(Builtin::AtomicSub),
        50u32 => Some(Builtin::AtomicAnd),
        51u32 => Some(Builtin::AtomicOr),
        52u32 => Some(Builtin::AtomicXor),
        53u32 => Some(Builtin::AtomicFence),
        54u32 => Some(Builtin::FutexWait),
        55u32 => Some(Builtin::FutexWake),
        56u32 => Some(Builtin::ThreadYield),
        57u32 => Some(Builtin::Syscall),
        58u32 => Some(Builtin::Printf),
        59u32 => Some(Builtin::Format),
        60u32 => Some(Builtin::Push),
        61u32 => Some(Builtin::Pop),
        _ => None,
    }
}

/// How many arguments a built-in evaluates when it is called with `n`. One that
/// needs a certain number evaluates none when it gets another.
pub open spec fn evaluated(b: Builtin, n: nat) -> nat {
    match b {
        Builtin::ReadLine | Builtin::ReadInt | Builtin::YieldNow | Builtin::ThreadYield => 0,
        Builtin::Log | Builtin::IntToStr | Builtin::BoolToStr | Builtin::FloatToStr
        | Builtin::CharToStr => if n == 1 { 1 } else { 0 },
        Builtin::Pop => 1,
        Builtin::Concat | Builtin::ConcatFreeLeft | Builtin::ConcatFreeRight
        | Builtin::ConcatFreeBoth | Builtin::JoinTimeout | Builtin::SelectTimeout
        | Builtin::ParForEach | Builtin::ParMapInt | Builtin::ParFilterInt
        | Builtin::ParScanInt | Builtin::OnceDo | Builtin::ParForEachFloat
        | Builtin::ParMapFloat | Builtin::ParFilterFloat | Builtin::ParScanFloat
        | Builtin::StrSplit | Builtin::AtomicStore | Builtin::AtomicAdd | Builtin::AtomicSub
        | Builtin::AtomicAnd | Builtin::AtomicOr | Builtin::AtomicXor | Builtin::FutexWait
        | Builtin::FutexWake => if n == 2 { 2 } else { 0 },
        Builtin::Push => 2,
        Builtin::ParForRange | Builtin::ParMapRange | Builtin::ParReduceInt
        | Builtin::ParReduceFloat | Builtin::AtomicCas => if n == 3 { 3 } else { 0 },
        Builtin::ParReduceRange | Builtin::ParScanBytes => if n == 4 { 4 } else { 0 },
        Builtin::ParMapBytes | Builtin::ParFilterBytes => if n == 5 { 5 } else { 0 },
        Builtin::Free | Builtin::Panic | Builtin::Spawn | Builtin::Join | Builtin::Thread
        | Builtin::Job | Builtin::JoinAll | Builtin::Select | Builtin::Cancel
        | Builtin::TryJoin | Builtin::Detach | Builtin::SpawnPool | Builtin::FileListdir
        | Builtin::AtomicLoad | Builtin::AtomicFence => if n == 0 { 0 } else { 1 },
        Builtin::Syscall => if n < 7 { n } else { 7 },
        Builtin::Printf | Builtin::Format => n,
    }
}

/// How many arguments of a call are lowered.
pub fn evaluated_args(b: Builtin, n: usize) -> (r: usize)
    ensures
        r == evaluated(b, n as nat),
{
    match b {
        Builtin::ReadLine | Builtin::ReadInt | Builtin::YieldNow | Builtin::ThreadYield => 0,
        Builtin::Log | Builtin::IntToStr | Builtin::BoolToStr | Builtin::FloatToStr
        | Builtin::CharToStr => if n == 1 { 1 } else { 0 },
        Builtin::Pop => 1,
        Builtin::Concat | Builtin::ConcatFreeLeft | Builtin::ConcatFreeRight
        | Builtin::ConcatFreeBoth | Builtin::JoinTimeout | Builtin::SelectTimeout
        | Builtin::ParForEach | Builtin::ParMapInt | Builtin::ParFilterInt
        | Builtin::ParScanInt | Builtin::OnceDo | Builtin::ParForEachFloat
        | Builtin::ParMapFloat | Builtin::ParFilterFloat | Builtin::ParScanFloat
        | Builtin::StrSplit | Builtin::AtomicStore | Builtin::AtomicAdd | Builtin::AtomicSub
        | Builtin::AtomicAnd | Builtin::AtomicOr | Builtin::AtomicXor | Builtin::FutexWait
        | Builtin::FutexWake => if n == 2 { 2 } else { 0 },
        Builtin::Push => 2,
        Builtin::ParForRange | Builtin::ParMapRange | Builtin::ParReduceInt
        | Builtin::ParReduceFloat | Builtin::AtomicCas => if n == 3 { 3 } else { 0 },
        Builtin::ParReduceRange | Builtin::ParScanBytes => if n == 4 { 4 } else { 0 },
        Builtin::ParMapBytes | Builtin::ParFilterBytes => if n == 5 { 5 } else { 0 },
        Builtin::Free | Builtin::Panic | Builtin::Spawn | Builtin::Join | Builtin::Thread
        | Builtin::Job | Builtin::JoinAll | Builtin::Select | Builtin::Cancel
        | Builtin::TryJoin | Builtin::Detach | Builtin::SpawnPool | Builtin::FileListdir
        | Builtin::AtomicLoad | Builtin::AtomicFence => if n == 0 { 0 } else { 1 },
        Builtin::Syscall => if n < 7 { n } else { 7 },
        Builtin::Printf | Builtin::Format => n,
    }
}

/// The call finds the arguments that it reads, with types that C can spell.
pub open spec fn builtin_ok(sym: SymTab, b: Builtin, args: Seq<HExpr>) -> bool {
    match b {
        Builtin::Printf | Builtin::Format => args.len() >= 1,
        Builtin::Push => args.len() >= 2 && ctypes::ty_ok(sym, args[0].ty),
        Builtin::Pop => args.len() >= 1 && ctypes::ty_ok(sym, args[0].ty),
        Builtin::AtomicCas => args.len() == 3 ==> ctypes::ty_ok(sym, args[2].ty),
        _ => true,
    }
}

/// The arguments of `printf`: the format and the converted values.
pub open spec fn printf_parts(args: Seq<HExpr>, t: Seq<Seq<char>>, n: nat) -> Seq<Seq<char>> {
    Seq::new(n, |i: int| if i == 0 { t[0] } else { operators::printf_text(t[i], args[i].ty) })
}

fn printf_args(args: &Vec<HExpr>, t: &Vec<String>) -> (r: String)
    requires
        args@.len() == t@.len(),
    ensures
        r@ == text::joined(printf_parts(args@, text::views(t@), args@.len()), ", "@),
{
    let ghost tv: Seq<Seq<char>> = text::views(t@);
    let mut parts: Vec<String> = no_parts();
    let mut i: usize = 0;
    assert(printf_parts(args@, tv, 0) =~= Seq::<Seq<char>>::empty());
    while i < args.len()
        invariant
            i <= args@.len(),
            args@.len() == t@.len(),
            tv == text::views(t@),
            text::views(parts@) == printf_parts(args@, tv, i as nat),
        decreases args@.len() - i,
    {
        let p: String = if i == 0 {
            own(&t[0])
        } else {
            printf_conv(&t[i], &args[i].ty)
        };
        assert(printf_parts(args@, tv, (i + 1) as nat) =~= printf_parts(args@, tv, i as nat).push(
            p@,
        ));
        push_part(&mut parts, p);
        i += 1;
    }
    join(&parts, ", ")
}

/// The arguments of a system call from position `from` up to `to`; those that
/// are not given are zero.
pub open spec fn syscall_parts(t: Seq<Seq<char>>, from: int, to: int) -> Seq<Seq<char>> {
    Seq::new(
        (to - from) as nat,
        |i: int| if from + i < t.len() { "(long)("@ + t[from + i] + ")"@ } else { "0L"@ },
    )
}

fn syscall_args(t: &Vec<String>, from: usize, to: usize) -> (r: String)
    requires
        from <= to,
    ensures
        r@ == text::joined(syscall_parts(text::views(t@), from as int, to as int), ", "@),
{
    let ghost tv: Seq<Seq<char>> = text::views(t@);
    let mut parts: Vec<String> = no_parts();
    let mut i: usize = from;
    assert(syscall_parts(tv, from as int, from as int) =~= Seq::<Seq<char>>::empty());
    while i < to
        invariant
            from <= i <= to,
            tv == text::views(t@),
            text::views(parts@) == syscall_parts(tv, from as int, i as int),
        decreases to - i,
    {
        let p: String = if i < t.len() {
            cat3("(long)(", &t[i], ")")
        } else {
            own("0L")
        };
        assert(syscall_parts(tv, from as int, i + 1) =~= syscall_parts(
            tv,
            from as int,
            i as int,
        ).push(p@));
        push_part(&mut parts, p);
        i += 1;
    }
    join(&parts, ", ")
}

/// Console, strings, vectors, files and raw system calls.
pub open spec fn values_text(sym: SymTab, b: Builtin, args: Seq<HExpr>, t: Seq<Seq<char>>) -> Seq<char> {
    match b {
        Builtin::Log => if t.len() == 0 {
            "MAKA_UNIT"@
        } else {
            "("@ + operators::log_name(args[0].ty) + "("@ + t[0] + "), MAKA_UNIT)"@
        },
        Builtin::Free => if t.len() == 0 {
            "MAKA_UNIT"@
        } else {
            "(free((void*)("@ + t[0] + ")), MAKA_UNIT)"@
        },
        Builtin::Panic => if t.len() == 0 {
            "(maka_panic(\"\"), MAKA_UNIT)"@
        } else {
            "(maka_panic("@ + t[0] + "), MAKA_UNIT)"@
        },
        Builtin::Concat => if t.len() == 0 {
            "((char*)0)"@
        } else {
            "__maka_str_concat("@ + t[0] + ", "@ + t[1] + ")"@
        },
        Builtin::ConcatFreeLeft => if t.len() == 0 {
            "((char*)0)"@
        } else {
            "__maka_str_concat_freel("@ + t[0] + ", "@ + t[1] + ")"@
        },
        Builtin::ConcatFreeRight => if t.len() == 0 {
            "((char*)0)"@
        } else {
            "__maka_str_concat_freer("@ + t[0] + ", "@ + t[1] + ")"@
        },
        Builtin::ConcatFreeBoth => if t.len() == 0 {
            "((char*)0)"@
        } else {
            "__maka_str_concat_freeb("@ + t[0] + ", "@ + t[1] + ")"@
        },
        Builtin::IntToStr => if t.len() == 0 {
            "((char*)0)"@
        } else {
            "__maka_int_to_str("@ + t[0] + ")"@
        },
        Builtin::BoolToStr => if t.len() == 0 {
            "((char*)0)"@
        } else {
            "__maka_bool_to_str("@ + t[0] + ")"@
        },
        Builtin::FloatToStr => if t.len() == 0 {
            "((char*)0)"@
        } else {
            "__maka_float_to_str("@ + t[0] + ")"@
        },
        Builtin::CharToStr => if t.len() == 0 {
            "((char*)0)"@
        } else {
            "__maka_char_to_str("@ + t[0] + ")"@
        },
        Builtin::ReadLine => "__maka_read_line()"@,
        Builtin::ReadInt => "__maka_read_int()"@,
        Builtin::Printf => "(printf("@ + text::joined(printf_parts(args, t, args.len()), ", "@) + "), MAKA_UNIT)"@,
        Builtin::Format => "__maka_format1("@ + text::joined(printf_parts(args, t, args.len()), ", "@) + ")"@,
        Builtin::Push => "(__extension__ ({ "@ + ctypes::ty_c(sym, args[0].ty) + " __vp = "@ + t[0]
            + "; if (__vp->len == __vp->cap) { __vp->cap = __vp->cap ? __vp->cap * 2 : 4; __vp->data = realloc(__vp->data, __vp->cap * sizeof(*__vp->data)); } __vp->data[__vp->len++] = ("@
            + t[1] + "); MAKA_UNIT; }))"@,
        Builtin::Pop => "(__extension__ ({ "@ + ctypes::ty_c(sym, args[0].ty) + " __vp = "@ + t[0]
            + "; if (__vp->len == 0) { maka_panic(\"pop from empty Vec\"); } __vp->len--; __vp->data[__vp->len]; }))"@,
        Builtin::FileListdir => if t.len() == 0 {
            "(Slice_str){0}"@
        } else {
            "(__extension__ ({ int64_t __n; const char** __p = __maka_rt_file_listdir(("@ + t[0]
                + "), &__n); (Slice_str){ .ptr = __p, .len = (maka_int)__n }; }))"@
        },
        Builtin::StrSplit => if t.len() == 0 {
            "(Slice_str){0}"@
        } else {
            "(__extension__ ({ int64_t __n; const char** __p = __maka_rt_str_split(("@ + t[0]
                + "), ("@ + t[1] + "), &__n); (Slice_str){ .ptr = __p, .len = (maka_int)__n }; }))"@
        },
        Builtin::Syscall => "(int64_t)__maka_syscall("@ + text::joined(syscall_parts(t, 0, 1), ", "@) + ", "@ + text::joined(
            syscall_parts(t, 1, 7),
            ", "@,
        ) + ")"@,
        _ => ""@,
    }
}

fn values_call(sym: &SymTab, b: Builtin, args: &Vec<HExpr>, t: &Vec<String>) -> (r: String)
    requires
        builtin_ok(*sym, b, args@),
        t@.len() == evaluated(b, args@.len()),
    ensures
        r@ == values_text(*sym, b, args@, text::views(t@)),
{
    match b {
        Builtin::Log => if t.len() == 0 {
            own("MAKA_UNIT")
        } else {
            cat5("(", log_helper(&args[0].ty), "(", &t[0], "), MAKA_UNIT)")
        },
        Builtin::Free => if t.len() == 0 {
            own("MAKA_UNIT")
        } else {
            cat3("(free((void*)(", &t[0], ")), MAKA_UNIT)")
        },
        Builtin::Panic => if t.len() == 0 {
            own("(maka_panic(\"\"), MAKA_UNIT)")
        } else {
            cat3("(maka_panic(", &t[0], "), MAKA_UNIT)")
        },
        Builtin::Concat => if t.len() == 0 {
            own("((char*)0)")
        } else {
            cat5("__maka_str_concat(", &t[0], ", ", &t[1], ")")
        },
        Builtin::ConcatFreeLeft => if t.len() == 0 {
            own("((char*)0)")
        } else {
            cat5("__maka_str_concat_freel(", &t[0], ", ", &t[1], ")")
        },
        Builtin::ConcatFreeRight => if t.len() == 0 {
            own("((char*)0)")
        } else {
            cat5("__maka_str_concat_freer(", &t[0], ", ", &t[1], ")")
        },
        Builtin::ConcatFreeBoth => if t.len() == 0 {
            own("((char*)0)")
        } else {
            cat5("__maka_str_concat_freeb(", &t[0], ", ", &t[1], ")")
        },
        Builtin::IntToStr => if t.len() == 0 {
            own("((char*)0)")
        } else {
            cat3("__maka_int_to_str(", &t[0], ")")
        },
        Builtin::BoolToStr => if t.len() == 0 {
            own("((char*)0)")
        } else {
            cat3("__maka_bool_to_str(", &t[0], ")")
        },
        Builtin::FloatToStr => if t.len() == 0 {
            own("((char*)0)")
        } else {
            cat3("__maka_float_to_str(", &t[0], ")")
        },
        Builtin::CharToStr => if t.len() == 0 {
            own("((char*)0)")
        } else {
            cat3("__maka_char_to_str(", &t[0], ")")
        },
        Builtin::ReadLine => own("__maka_read_line()"),
        Builtin::ReadInt => own("__maka_read_int()"),
        Builtin::Printf => cat3("(printf(", &printf_args(args, t), "), MAKA_UNIT)"),
        Builtin::Format => cat3("__maka_format1(", &printf_args(args, t), ")"),
        Builtin::Push => cat7(
            "(__extension__ ({ ",
            &c_type(sym, &args[0].ty),
            " __vp = ",
            &t[0],
            "; if (__vp->len == __vp->cap) { __vp->cap = __vp->cap ? __vp->cap * 2 : 4; __vp->data = realloc(__vp->data, __vp->cap * sizeof(*__vp->data)); } __vp->data[__vp->len++] = (",
            &t[1],
            "); MAKA_UNIT; }))",
        ),
        Builtin::Pop => cat5(
            "(__extension__ ({ ",
            &c_type(sym, &args[0].ty),
            " __vp = ",
            &t[0],
            "; if (__vp->len == 0) { maka_panic(\"pop from empty Vec\"); } __vp->len--; __vp->data[__vp->len]; }))",
        ),
        Builtin::FileListdir => if t.len() == 0 {
            own("(Slice_str){0}")
        } else {
            cat3(
                "(__extension__ ({ int64_t __n; const char** __p = __maka_rt_file_listdir((",
                &t[0],
                "), &__n); (Slice_str){ .ptr = __p, .len = (maka_int)__n }; }))",
            )
        },
        Builtin::StrSplit => if t.len() == 0 {
            own("(Slice_str){0}")
        } else {
            cat5(
                "(__extension__ ({ int64_t __n; const char** __p = __maka_rt_str_split((",
                &t[0],
                "), (",
                &t[1],
                "), &__n); (Slice_str){ .ptr = __p, .len = (maka_int)__n }; }))",
            )
        },
        Builtin::Syscall => cat5(
            "(int64_t)__maka_syscall(",
            &syscall_args(t, 0, 1),
            ", ",
            &syscall_args(t, 1, 7),
            ")",
        ),
        _ => own(""),
    }
}

/// Fibers, threads and jobs.
pub open spec fn tasks_text(b: Builtin, t: Seq<Seq<char>>) -> Seq<char> {
    match b {
        Builtin::Spawn => if t.len() == 0 {
            "NULL"@
        } else {
            "(__extension__ ({ Callable_unit_ __cb = ("@ + t[0]
                + "); (Thread*)__maka_spawn_fiber(__cb.code, __cb.env); }))"@
        },
        Builtin::Thread => if t.len() == 0 {
            "NULL"@
        } else {
            "(__extension__ ({ Callable_unit_ __cb = ("@ + t[0]
                + "); (Thread*)__maka_spawn_thread(__cb.code, __cb.env); }))"@
        },
        Builtin::Job => if t.len() == 0 {
            "NULL"@
        } else {
            "(__extension__ ({ Callable_unit_ __cb = ("@ + t[0]
                + "); (Thread*)__maka_spawn_job(__cb.code, __cb.env); }))"@
        },
        Builtin::SpawnPool => if t.len() == 0 {
            "NULL"@
        } else {
            "(__extension__ ({ Callable_unit_ __cb = ("@ + t[0]
                + "); (Thread*)__maka_spawn_pool(__cb.code, __cb.env); }))"@
        },
        Builtin::Join => if t.len() == 0 {
            "MAKA_UNIT"@
        } else {
            "(__maka_join((maka_unit*)("@ + t[0] + ")), MAKA_UNIT)"@
        },
        Builtin::JoinAll => if t.len() == 0 {
            "MAKA_UNIT"@
        } else {
            "(__maka_join_all_i64((maka_unit**)("@ + t[0] + ").ptr, ("@ + t[0]
                + ").len, NULL), MAKA_UNIT)"@
        },
        Builtin::Select => if t.len() == 0 {
            "MAKA_UNIT"@
        } else {
            "(__maka_select_first_i64((maka_unit**)("@ + t[0] + ").ptr, ("@ + t[0]
                + ").len, NULL), MAKA_UNIT)"@
        },
        Builtin::YieldNow => "(__maka_yield_now(), MAKA_UNIT)"@,
        Builtin::Cancel => if t.len() == 0 {
            "MAKA_UNIT"@
        } else {
            "(__maka_cancel((maka_unit*)("@ + t[0] + ")), MAKA_UNIT)"@
        },
        Builtin::TryJoin => if t.len() == 0 {
            "0"@
        } else {
            "((bool)(__maka_try_join((maka_unit*)("@ + t[0] + "), NULL) != 0))"@
        },
        Builtin::JoinTimeout => if t.len() == 0 {
            "0"@
        } else {
            "((bool)(__maka_join_timeout((maka_unit*)("@ + t[0] + "), (int64_t)("@ + t[1]
                + "), NULL) != 0))"@
        },
        Builtin::SelectTimeout => if t.len() == 0 {
            "(-1)"@
        } else {
            "({ int64_t __out_i = -1; (void)__maka_select_timeout_i64((maka_unit**)("@ + t[0]
                + ").ptr, ("@ + t[0] + ").len, (int64_t)("@ + t[1] + "), &__out_i); __out_i; })"@
        },
        Builtin::OnceDo => if t.len() == 0 {
            "MAKA_UNIT"@
        } else {
            "(__extension__ ({ Callable_unit_ __cb = ("@ + t[1]
                + "); (maka_once_do((maka_unit*)("@ + t[0]
                + "), (void*)__cb.code, (void*)__cb.env), MAKA_UNIT); }))"@
        },
        Builtin::Detach => if t.len() == 0 {
            "MAKA_UNIT"@
        } else {
            "(__maka_detach((maka_unit*)("@ + t[0] + ")), MAKA_UNIT)"@
        },
        Builtin::ThreadYield => "(__maka_thread_yield(), MAKA_UNIT)"@,
        _ => ""@,
    }
}

fn tasks_call(b: Builtin, t: &Vec<String>) -> (r: String)
    requires
        exists|n: nat| t@.len() == #[trigger] evaluated(b, n),
    ensures
        r@ == tasks_text(b, text::views(t@)),
{
    match b {
        Builtin::Spawn => if t.len() == 0 {
            own("NULL")
        } else {
            cat3(
                "(__extension__ ({ Callable_unit_ __cb = (",
                &t[0],
                "); (Thread*)__maka_spawn_fiber(__cb.code, __cb.env); }))",
            )
        },
        Builtin::Thread => if t.len() == 0 {
            own("NULL")
        } else {
            cat3(
                "(__extension__ ({ Callable_unit_ __cb = (",
                &t[0],
                "); (Thread*)__maka_spawn_thread(__cb.code, __cb.env); }))",
            )
        },
        Builtin::Job => if t.len() == 0 {
            own("NULL")
        } else {
            cat3(
                "(__extension__ ({ Callable_unit_ __cb = (",
                &t[0],
                "); (Thread*)__maka_spawn_job(__cb.code, __cb.env); }))",
            )
        },
        Builtin::SpawnPool => if t.len() == 0 {
            own("NULL")
        } else {
            cat3(
                "(__extension__ ({ Callable_unit_ __cb = (",
                &t[0],
                "); (Thread*)__maka_spawn_pool(__cb.code, __cb.env); }))",
            )
        },
        Builtin::Join => if t.len() == 0 {
            own("MAKA_UNIT")
        } else {
            cat3("(__maka_join((maka_unit*)(", &t[0], ")), MAKA_UNIT)")
        },
        Builtin::JoinAll => if t.len() == 0 {
            own("MAKA_UNIT")
        } else {
            cat5(
                "(__maka_join_all_i64((maka_unit**)(",
                &t[0],
                ").ptr, (",
                &t[0],
                ").len, NULL), MAKA_UNIT)",
            )
        },
        Builtin::Select => if t.len() == 0 {
            own("MAKA_UNIT")
        } else {
            cat5(
                "(__maka_select_first_i64((maka_unit**)(",
                &t[0],
                ").ptr, (",
                &t[0],
                ").len, NULL), MAKA_UNIT)",
            )
        },
        Builtin::YieldNow => own("(__maka_yield_now(), MAKA_UNIT)"),
        Builtin::Cancel => if t.len() == 0 {
            own("MAKA_UNIT")
        } else {
            cat3("(__maka_cancel((maka_unit*)(", &t[0], ")), MAKA_UNIT)")
        },
        Builtin::TryJoin => if t.len() == 0 {
            own("0")
        } else {
            cat3("((bool)(__maka_try_join((maka_unit*)(", &t[0], "), NULL) != 0))")
        },
        Builtin::JoinTimeout => if t.len() == 0 {
            own("0")
        } else {
            cat5(
                "((bool)(__maka_join_timeout((maka_unit*)(",
                &t[0],
                "), (int64_t)(",
                &t[1],
                "), NULL) != 0))",
            )
        },
        Builtin::SelectTimeout => if t.len() == 0 {
            own("(-1)")
        } else {
            cat7(
                "({ int64_t __out_i = -1; (void)__maka_select_timeout_i64((maka_unit**)(",
                &t[0],
                ").ptr, (",
                &t[0],
                ").len, (int64_t)(",
                &t[1],
                "), &__out_i); __out_i; })",
            )
        },
        Builtin::OnceDo => if t.len() == 0 {
            own("MAKA_UNIT")
        } else {
            cat5(
                "(__extension__ ({ Callable_unit_ __cb = (",
                &t[1],
                "); (maka_once_do((maka_unit*)(",
                &t[0],
                "), (void*)__cb.code, (void*)__cb.env), MAKA_UNIT); }))",
            )
        },
        Builtin::Detach => if t.len() == 0 {
            own("MAKA_UNIT")
        } else {
            cat3("(__maka_detach((maka_unit*)(", &t[0], ")), MAKA_UNIT)")
        },
        Builtin::ThreadYield => own("(__maka_thread_yield(), MAKA_UNIT)"),
        _ => own(""),
    }
}

/// Parallel loops over ranges, slices and raw memory.
pub open spec fn parallel_text(b: Builtin, args: Seq<HExpr>, t: Seq<Seq<char>>) -> Seq<char> {
    match b {
        Builtin::ParForRange => if t.len() == 0 {
            "MAKA_UNIT"@
        } else {
            "(__extension__ ({ Callable_unit_int_ __cb = ("@ + t[2]
                + "); __maka_par_for_range((int64_t)("@ + t[0] + "), (int64_t)("@ + t[1]
                + "), __cb.code, __cb.env);"@
                + (if args[2].kind is Closure { " free(__cb.env);"@ } else { ""@ })
                + " MAKA_UNIT; }))"@
        },
        Builtin::ParReduceRange => if t.len() == 0 {
            "0"@
        } else {
            "(__extension__ ({ Callable_int_int_int_ __cb = ("@ + t[3]
                + "); __maka_par_reduce_int((int64_t)("@ + t[0] + "), (int64_t)("@ + t[1]
                + "), (int64_t)("@ + t[2] + "), __cb.code, __cb.env); }))"@
        },
        Builtin::ParMapRange => if t.len() == 0 {
            "((Vec_maka_int){ .data = NULL, .len = 0, .cap = 0 })"@
        } else {
            "(__extension__ ({ Callable_int_int_ __cb = ("@ + t[2]
                + "); Slice_maka_int __s = __maka_par_map_int((int64_t)("@ + t[0] + "), (int64_t)("@
                + t[1]
                + "), __cb.code, __cb.env); (Vec_maka_int){ .data = __s.ptr, .len = __s.len, .cap = __s.len }; }))"@
        },
        Builtin::ParForEach => if t.len() == 0 {
            "MAKA_UNIT"@
        } else {
            "(__extension__ ({ Callable_unit_ __cb = ("@ + t[1]
                + "); (__maka_par_for_each_i64(("@ + t[0]
                + "), __cb.code, __cb.env), MAKA_UNIT); }))"@
        },
        Builtin::ParMapInt => if t.len() == 0 {
            "((Vec_maka_int){ .data = NULL, .len = 0, .cap = 0 })"@
        } else {
            "(__extension__ ({ Callable_int_int_ __cb = ("@ + t[1]
                + "); Slice_maka_int __s = __maka_par_map_int_slice(("@ + t[0]
                + "), __cb.code, __cb.env); (Vec_maka_int){ .data = __s.ptr, .len = __s.len, .cap = __s.len }; }))"@
        },
        Builtin::ParReduceInt => if t.len() == 0 {
            "0"@
        } else {
            "(__extension__ ({ Callable_int_int_int_ __cb = ("@ + t[2]
                + "); __maka_par_reduce_int_slice(("@ + t[0] + "), (int64_t)("@ + t[1]
                + "), __cb.code, __cb.env); }))"@
        },
        Builtin::ParFilterInt => if t.len() == 0 {
            "((Vec_maka_int){ .data = NULL, .len = 0, .cap = 0 })"@
        } else {
            "(__extension__ ({ Callable_bool_int_ __cb = ("@ + t[1]
                + "); Slice_maka_int __s = __maka_par_filter_int(("@ + t[0]
                + "), __cb.code, __cb.env); (Vec_maka_int){ .data = __s.ptr, .len = __s.len, .cap = __s.len }; }))"@
        },
        Builtin::ParScanInt => if t.len() == 0 {
            "((Vec_maka_int){ .data = NULL, .len = 0, .cap = 0 })"@
        } else {
            "(__extension__ ({ Callable_int_int_int_ __cb = ("@ + t[1]
                + "); Slice_maka_int __s = __maka_par_scan_int(("@ + t[0]
                + "), __cb.code, __cb.env); (Vec_maka_int){ .data = __s.ptr, .len = __s.len, .cap = __s.len }; }))"@
        },
        Builtin::ParForEachFloat => if t.len() == 0 {
            "MAKA_UNIT"@
        } else {
            "(__extension__ ({ Callable_unit_float_ __cb = ("@ + t[1]
                + "); (__maka_par_for_each_f64(("@ + t[0]
                + "), __cb.code, __cb.env), MAKA_UNIT); }))"@
        },
        Builtin::ParMapFloat => if t.len() == 0 {
            "((Vec_maka_float){ .data = NULL, .len = 0, .cap = 0 })"@
        } else {
            "(__extension__ ({ Callable_float_float_ __cb = ("@ + t[1]
                + "); Slice_maka_float __s = __maka_par_map_float(("@ + t[0]
                + "), __cb.code, __cb.env); (Vec_maka_float){ .data = __s.ptr, .len = __s.len, .cap = __s.len }; }))"@
        },
        Builtin::ParReduceFloat => if t.len() == 0 {
            "0.0"@
        } else {
            "(__extension__ ({ Callable_float_float_float_ __cb = ("@ + t[2]
                + "); __maka_par_reduce_float(("@ + t[0] + "), (double)("@ + t[1]
                + "), __cb.code, __cb.env); }))"@
        },
        Builtin::ParFilterFloat => if t.len() == 0 {
            "(Slice_maka_float){0}"@
        } else {
            "(__extension__ ({ Callable_bool_float_ __cb = ("@ + t[1]
                + "); __maka_par_filter_float(("@ + t[0] + "), __cb.code, __cb.env); }))"@
        },
        Builtin::ParScanFloat => if t.len() == 0 {
            "(Slice_maka_float){0}"@
        } else {
            "(__extension__ ({ Callable_float_float_float_ __cb = ("@ + t[1]
                + "); __maka_par_scan_float(("@ + t[0] + "), __cb.code, __cb.env); }))"@
        },
        Builtin::ParMapBytes => if t.len() == 0 {
            "NULL"@
        } else {
            "(__extension__ ({ Callable_unit_Pmunit_Pmunit_ __cb = ("@ + t[4]
                + "); (maka_unit*)maka_par_map_bytes((void*)("@ + t[0] + "), (int64_t)("@ + t[1]
                + "), (int64_t)("@ + t[2] + "), (int64_t)("@ + t[3]
                + "), (void*)__cb.code, (void*)__cb.env); }))"@
        },
        Builtin::ParFilterBytes => if t.len() == 0 {
            "NULL"@
        } else {
            "(__extension__ ({ Callable_bool_Pmunit_ __cb = ("@ + t[4]
                + "); (maka_unit*)maka_par_filter_bytes((void*)("@ + t[0] + "), (int64_t)("@ + t[1]
                + "), (int64_t)("@ + t[2] + "), (int64_t*)("@ + t[3]
                + "), (void*)__cb.code, (void*)__cb.env); }))"@
        },
        Builtin::ParScanBytes => if t.len() == 0 {
            "NULL"@
        } else {
            "(__extension__ ({ Callable_unit_Pmunit_Pmunit_Pmunit_ __cb = ("@ + t[3]
                + "); (maka_unit*)maka_par_scan_bytes((void*)("@ + t[0] + "), (int64_t)("@ + t[1]
                + "), (int64_t)("@ + t[2] + "), (void*)__cb.code, (void*)__cb.env); }))"@
        },
        _ => ""@,
    }
}

fn parallel_call(b: Builtin, args: &Vec<HExpr>, t: &Vec<String>) -> (r: String)
    requires
        t@.len() == evaluated(b, args@.len()),
    ensures
        r@ == parallel_text(b, args@, text::views(t@)),
{
    match b {
        Builtin::ParForRange => if t.len() == 0 {
            own("MAKA_UNIT")
        } else {
            let free_env: &str = match &args[2].kind {
                HExprKind::Closure { .. } => " free(__cb.env);",
                _ => "",
            };
            cat9(
                "(__extension__ ({ Callable_unit_int_ __cb = (",
                &t[2],
                "); __maka_par_for_range((int64_t)(",
                &t[0],
                "), (int64_t)(",
                &t[1],
                "), __cb.code, __cb.env);",
                free_env,
                " MAKA_UNIT; }))",
            )
        },
        Builtin::ParReduceRange => if t.len() == 0 {
            own("0")
        } else {
            cat9(
                "(__extension__ ({ Callable_int_int_int_ __cb = (",
                &t[3],
                "); __maka_par_reduce_int((int64_t)(",
                &t[0],
                "), (int64_t)(",
                &t[1],
                "), (int64_t)(",
                &t[2],
                "), __cb.code, __cb.env); }))",
            )
        },
        Builtin::ParMapRange => if t.len() == 0 {
            own("((Vec_maka_int){ .data = NULL, .len = 0, .cap = 0 })")
        } else {
            cat7(
                "(__extension__ ({ Callable_int_int_ __cb = (",
                &t[2],
                "); Slice_maka_int __s = __maka_par_map_int((int64_t)(",
                &t[0],
                "), (int64_t)(",
                &t[1],
                "), __cb.code, __cb.env); (Vec_maka_int){ .data = __s.ptr, .len = __s.len, .cap = __s.len }; }))",
            )
        },
        Builtin::ParForEach => if t.len() == 0 {
            own("MAKA_UNIT")
        } else {
            cat5(
                "(__extension__ ({ Callable_unit_ __cb = (",
                &t[1],
                "); (__maka_par_for_each_i64((",
                &t[0],
                "), __cb.code, __cb.env), MAKA_UNIT); }))",
            )
        },
        Builtin::ParMapInt => if t.len() == 0 {
            own("((Vec_maka_int){ .data = NULL, .len = 0, .cap = 0 })")
        } else {
            cat5(
                "(__extension__ ({ Callable_int_int_ __cb = (",
                &t[1],
                "); Slice_maka_int __s = __maka_par_map_int_slice((",
                &t[0],
                "), __cb.code, __cb.env); (Vec_maka_int){ .data = __s.ptr, .len = __s.len, .cap = __s.len }; }))",
            )
        },
        Builtin::ParReduceInt => if t.len() == 0 {
            own("0")
        } else {
            cat7(
                "(__extension__ ({ Callable_int_int_int_ __cb = (",
                &t[2],
                "); __maka_par_reduce_int_slice((",
                &t[0],
                "), (int64_t)(",
                &t[1],
                "), __cb.code, __cb.env); }))",
            )
        },
        Builtin::ParFilterInt => if t.len() == 0 {
            own("((Vec_maka_int){ .data = NULL, .len = 0, .cap = 0 })")
        } else {
            cat5(
                "(__extension__ ({ Callable_bool_int_ __cb = (",
                &t[1],
                "); Slice_maka_int __s = __maka_par_filter_int((",
                &t[0],
                "), __cb.code, __cb.env); (Vec_maka_int){ .data = __s.ptr, .len = __s.len, .cap = __s.len }; }))",
            )
        },
        Builtin::ParScanInt => if t.len() == 0 {
            own("((Vec_maka_int){ .data = NULL, .len = 0, .cap = 0 })")
        } else {
            cat5(
                "(__extension__ ({ Callable_int_int_int_ __cb = (",
                &t[1],
                "); Slice_maka_int __s = __maka_par_scan_int((",
                &t[0],
                "), __cb.code, __cb.env); (Vec_maka_int){ .data = __s.ptr, .len = __s.len, .cap = __s.len }; }))",
            )
        },
        Builtin::ParForEachFloat => if t.len() == 0 {
            own("MAKA_UNIT")
        } else {
            cat5(
                "(__extension__ ({ Callable_unit_float_ __cb = (",
                &t[1],
                "); (__maka_par_for_each_f64((",
                &t[0],
                "), __cb.code, __cb.env), MAKA_UNIT); }))",
            )
        },
        Builtin::ParMapFloat => if t.len() == 0 {
            own("((Vec_maka_float){ .data = NULL, .len = 0, .cap = 0 })")
        } else {
            cat5(
                "(__extension__ ({ Callable_float_float_ __cb = (",
                &t[1],
                "); Slice_maka_float __s = __maka_par_map_float((",
                &t[0],
                "), __cb.code, __cb.env); (Vec_maka_float){ .data = __s.ptr, .len = __s.len, .cap = __s.len }; }))",
            )
        },
        Builtin::ParReduceFloat => if t.len() == 0 {
            own("0.0")
        } else {
            cat7(
                "(__extension__ ({ Callable_float_float_float_ __cb = (",
                &t[2],
                "); __maka_par_reduce_float((",
                &t[0],
                "), (double)(",
                &t[1],
                "), __cb.code, __cb.env); }))",
            )
        },
        Builtin::ParFilterFloat => if t.len() == 0 {
            own("(Slice_maka_float){0}")
        } else {
            cat5(
                "(__extension__ ({ Callable_bool_float_ __cb = (",
                &t[1],
                "); __maka_par_filter_float((",
                &t[0],
                "), __cb.code, __cb.env); }))",
            )
        },
        Builtin::ParScanFloat => if t.len() == 0 {
            own("(Slice_maka_float){0}")
        } else {
            cat5(
                "(__extension__ ({ Callable_float_float_float_ __cb = (",
                &t[1],
                "); __maka_par_scan_float((",
                &t[0],
                "), __cb.code, __cb.env); }))",
            )
        },
        Builtin::ParMapBytes => if t.len() == 0 {
            own("NULL")
        } else {
            cat11(
                "(__extension__ ({ Callable_unit_Pmunit_Pmunit_ __cb = (",
                &t[4],
                "); (maka_unit*)maka_par_map_bytes((void*)(",
                &t[0],
                "), (int64_t)(",
                &t[1],
                "), (int64_t)(",
                &t[2],
                "), (int64_t)(",
                &t[3],
                "), (void*)__cb.code, (void*)__cb.env); }))",
            )
        },
        Builtin::ParFilterBytes => if t.len() == 0 {
            own("NULL")
        } else {
            cat11(
                "(__extension__ ({ Callable_bool_Pmunit_ __cb = (",
                &t[4],
                "); (maka_unit*)maka_par_filter_bytes((void*)(",
                &t[0],
                "), (int64_t)(",
                &t[1],
                "), (int64_t)(",
                &t[2],
                "), (int64_t*)(",
                &t[3],
                "), (void*)__cb.code, (void*)__cb.env); }))",
            )
        },
        Builtin::ParScanBytes => if t.len() == 0 {
            own("NULL")
        } else {
            cat9(
                "(__extension__ ({ Callable_unit_Pmunit_Pmunit_Pmunit_ __cb = (",
                &t[3],
                "); (maka_unit*)maka_par_scan_bytes((void*)(",
                &t[0],
                "), (int64_t)(",
                &t[1],
                "), (int64_t)(",
                &t[2],
                "), (void*)__cb.code, (void*)__cb.env); }))",
            )
        },
        _ => own(""),
    }
}

/// Atomic memory access and futexes.
pub open spec fn atomics_text(sym: SymTab, b: Builtin, args: Seq<HExpr>, t: Seq<Seq<char>>) -> Seq<char> {
    match b {
        Builtin::AtomicCas => if t.len() == 0 {
            "0"@
        } else {
            "(__extension__ ({ "@ + ctypes::ty_c(sym, args[2].ty) + " __exp = ("@ + t[1]
                + "); __atomic_compare_exchange_n("@ + t[0] + ", &__exp, ("@ + t[2]
                + "), 0, __ATOMIC_SEQ_CST, __ATOMIC_SEQ_CST); __exp; }))"@
        },
        Builtin::AtomicLoad => if t.len() == 0 {
            "0"@
        } else {
            "__atomic_load_n(("@ + t[0] + "), __ATOMIC_SEQ_CST)"@
        },
        Builtin::AtomicStore => if t.len() == 0 {
            "MAKA_UNIT"@
        } else {
            "(__atomic_store_n(("@ + t[0] + "), ("@ + t[1] + "), __ATOMIC_SEQ_CST), MAKA_UNIT)"@
        },
        Builtin::AtomicAdd => if t.len() == 0 {
            "0"@
        } else {
            "__atomic_fetch_add(("@ + t[0] + "), ("@ + t[1] + "), __ATOMIC_SEQ_CST)"@
        },
        Builtin::AtomicSub => if t.len() == 0 {
            "0"@
        } else {
            "__atomic_fetch_sub(("@ + t[0] + "), ("@ + t[1] + "), __ATOMIC_SEQ_CST)"@
        },
        Builtin::AtomicAnd => if t.len() == 0 {
            "0"@
        } else {
            "__atomic_fetch_and(("@ + t[0] + "), ("@ + t[1] + "), __ATOMIC_SEQ_CST)"@
        },
        Builtin::AtomicOr => if t.len() == 0 {
            "0"@
        } else {
            "__atomic_fetch_or(("@ + t[0] + "), ("@ + t[1] + "), __ATOMIC_SEQ_CST)"@
        },
        Builtin::AtomicXor => if t.len() == 0 {
            "0"@
        } else {
            "__atomic_fetch_xor(("@ + t[0] + "), ("@ + t[1] + "), __ATOMIC_SEQ_CST)"@
        },
        Builtin::AtomicFence => if t.len() == 0 {
            "MAKA_UNIT"@
        } else {
            "(__atomic_thread_fence((("@ + t[0] + ") == 1) ? __ATOMIC_ACQUIRE : (("@ + t[0]
                + ") == 2) ? __ATOMIC_RELEASE : (("@ + t[0]
                + ") == 3) ? __ATOMIC_ACQ_REL : __ATOMIC_SEQ_CST), MAKA_UNIT)"@
        },
        Builtin::FutexWait => if t.len() == 0 {
            "0"@
        } else {
            "(int64_t)__maka_futex_wait((const int*)("@ + t[0] + "), (int)("@ + t[1] + "))"@
        },
        Builtin::FutexWake => if t.len() == 0 {
            "0"@
        } else {
            "(int64_t)__maka_futex_wake((const int*)("@ + t[0] + "), (int)("@ + t[1] + "))"@
        },
        _ => ""@,
    }
}

fn atomics_call(sym: &SymTab, b: Builtin, args: &Vec<HExpr>, t: &Vec<String>) -> (r: String)
    requires
        builtin_ok(*sym, b, args@),
        t@.len() == evaluated(b, args@.len()),
    ensures
        r@ == atomics_text(*sym, b, args@, text::views(t@)),
{
    match b {
        Builtin::AtomicCas => if t.len() == 0 {
            own("0")
        } else {
            cat9(
                "(__extension__ ({ ",
                &c_type(sym, &args[2].ty),
                " __exp = (",
                &t[1],
                "); __atomic_compare_exchange_n(",
                &t[0],
                ", &__exp, (",
                &t[2],
                "), 0, __ATOMIC_SEQ_CST, __ATOMIC_SEQ_CST); __exp; }))",
            )
        },
        Builtin::AtomicLoad => if t.len() == 0 {
            own("0")
        } else {
            cat3("__atomic_load_n((", &t[0], "), __ATOMIC_SEQ_CST)")
        },
        Builtin::AtomicStore => if t.len() == 0 {
            own("MAKA_UNIT")
        } else {
            cat5(
                "(__atomic_store_n((",
                &t[0],
                "), (",
                &t[1],
                "), __ATOMIC_SEQ_CST), MAKA_UNIT)",
            )
        },
        Builtin::AtomicAdd => if t.len() == 0 {
            own("0")
        } else {
            cat5("__atomic_fetch_add((", &t[0], "), (", &t[1], "), __ATOMIC_SEQ_CST)")
        },
        Builtin::AtomicSub => if t.len() == 0 {
            own("0")
        } else {
            cat5("__atomic_fetch_sub((", &t[0], "), (", &t[1], "), __ATOMIC_SEQ_CST)")
        },
        Builtin::AtomicAnd => if t.len() == 0 {
            own("0")
        } else {
            cat5("__atomic_fetch_and((", &t[0], "), (", &t[1], "), __ATOMIC_SEQ_CST)")
        },
        Builtin::AtomicOr => if t.len() == 0 {
            own("0")
        } else {
            cat5("__atomic_fetch_or((", &t[0], "), (", &t[1], "), __ATOMIC_SEQ_CST)")
        },
        Builtin::AtomicXor => if t.len() == 0 {
            own("0")
        } else {
            cat5("__atomic_fetch_xor((", &t[0], "), (", &t[1], "), __ATOMIC_SEQ_CST)")
        },
        Builtin::AtomicFence => if t.len() == 0 {
            own("MAKA_UNIT")
        } else {
            cat7(
                "(__atomic_thread_fence(((",
                &t[0],
                ") == 1) ? __ATOMIC_ACQUIRE : ((",
                &t[0],
                ") == 2) ? __ATOMIC_RELEASE : ((",
                &t[0],
                ") == 3) ? __ATOMIC_ACQ_REL : __ATOMIC_SEQ_CST), MAKA_UNIT)",
            )
        },
        Builtin::FutexWait => if t.len() == 0 {
            own("0")
        } else {
            cat5("(int64_t)__maka_futex_wait((const int*)(", &t[0], "), (int)(", &t[1], "))")
        },
        Builtin::FutexWake => if t.len() == 0 {
            own("0")
        } else {
            cat5("(int64_t)__maka_futex_wake((const int*)(", &t[0], "), (int)(", &t[1], "))")
        },
        _ => own(""),
    }
}

/// The C expression of a built-in call, given the C text of the arguments that it
/// evaluates.
pub open spec fn builtin_c(
    sym: SymTab,
    b: Builtin,
    args: Seq<HExpr>,
    t: Seq<Seq<char>>,
) -> Seq<char> {
    match b {
        Builtin::Log | Builtin::Free | Builtin::Panic | Builtin::Concat
        | Builtin::ConcatFreeLeft | Builtin::ConcatFreeRight | Builtin::ConcatFreeBoth
        | Builtin::IntToStr | Builtin::BoolToStr | Builtin::FloatToStr | Builtin::CharToStr
        | Builtin::ReadLine | Builtin::ReadInt | Builtin::Printf | Builtin::Format
        | Builtin::Push | Builtin::Pop | Builtin::FileListdir | Builtin::StrSplit
        | Builtin::Syscall => values_text(sym, b, args, t),
        Builtin::Spawn | Builtin::Thread | Builtin::Job | Builtin::SpawnPool | Builtin::Join
        | Builtin::JoinAll | Builtin::Select | Builtin::YieldNow | Builtin::Cancel
        | Builtin::TryJoin | Builtin::JoinTimeout | Builtin::SelectTimeout | Builtin::OnceDo
        | Builtin::Detach | Builtin::ThreadYield => tasks_text(b, t),
        Builtin::ParForRange | Builtin::ParReduceRange | Builtin::ParMapRange
        | Builtin::ParForEach | Builtin::ParMapInt | Builtin::ParReduceInt
        | Builtin::ParFilterInt | Builtin::ParScanInt | Builtin::ParForEachFloat
        | Builtin::ParMapFloat | Builtin::ParReduceFloat | Builtin::ParFilterFloat
        | Builtin::ParScanFloat | Builtin::ParMapBytes | Builtin::ParFilterBytes
        | Builtin::ParScanBytes => parallel_text(b, args, t),
        Builtin::AtomicCas | Builtin::AtomicLoad | Builtin::AtomicStore | Builtin::AtomicAdd
        | Builtin::AtomicSub | Builtin::AtomicAnd | Builtin::AtomicOr | Builtin::AtomicXor
        | Builtin::AtomicFence | Builtin::FutexWait | Builtin::FutexWake => atomics_text(sym, b, args, t),
    }
}

/// Writes a call of a built-in from the texts of its arguments.
pub fn builtin_call(
    sym: &SymTab,
    b: Builtin,
    args: &Vec<HExpr>,
    t: &Vec<String>,
) -> (r: String)
    requires
        builtin_ok(*sym, b, args@),
        t@.len() == evaluated(b, args@.len()),
    ensures
        r@ == builtin_c(*sym, b, args@, text::views(t@)),
{
    match b {
        Builtin::Log | Builtin::Free | Builtin::Panic | Builtin::Concat
        | Builtin::ConcatFreeLeft | Builtin::ConcatFreeRight | Builtin::ConcatFreeBoth
        | Builtin::IntToStr | Builtin::BoolToStr | Builtin::FloatToStr | Builtin::CharToStr
        | Builtin::ReadLine | Builtin::ReadInt | Builtin::Printf | Builtin::Format
        | Builtin::Push | Builtin::Pop | Builtin::FileListdir | Builtin::StrSplit
        | Builtin::Syscall => values_call(sym, b, args, t),
        Builtin::Spawn | Builtin::Thread | Builtin::Job | Builtin::SpawnPool | Builtin::Join
        | Builtin::JoinAll | Builtin::Select | Builtin::YieldNow | Builtin::Cancel
        | Builtin::TryJoin | Builtin::JoinTimeout | Builtin::SelectTimeout | Builtin::OnceDo
        | Builtin::Detach | Builtin::ThreadYield => tasks_call(b, t),
        Builtin::ParForRange | Builtin::ParReduceRange | Builtin::ParMapRange
        | Builtin::ParForEach | Builtin::ParMapInt | Builtin::ParReduceInt
        | Builtin::ParFilterInt | Builtin::ParScanInt | Builtin::ParForEachFloat
        | Builtin::ParMapFloat | Builtin::ParReduceFloat | Builtin::ParFilterFloat
        | Builtin::ParScanFloat | Builtin::ParMapBytes | Builtin::ParFilterBytes
        | Builtin::ParScanBytes => parallel_call(b, args, t),
        Builtin::AtomicCas | Builtin::AtomicLoad | Builtin::AtomicStore | Builtin::AtomicAdd
        | Builtin::AtomicSub | Builtin::AtomicAnd | Builtin::AtomicOr | Builtin::AtomicXor
        | Builtin::AtomicFence | Builtin::FutexWait | Builtin::FutexWake => atomics_call(sym, b, args, t),
    }
}

} // verus!
