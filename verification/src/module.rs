//! Whole modules: the runtime, the types, the declarations and the functions.
use vstd::prelude::*;

use crate::context::{Out, St, State};
use crate::ctypes;
use crate::ctypes::{c_ret_type, c_type, func_signature};
use crate::definitions;
use crate::definitions::emit_structs_and_enums;
use crate::dispatch;
use crate::dispatch::{
    emit_callable_typedefs, emit_closure_trampolines, emit_dyn_typedefs,
    emit_dyn_vtable_instances, emit_trampolines,
};
use crate::drops;
use crate::drops::{compute_drop_owns, emit_drop_glue};
use crate::functions;
use crate::functions::emit_func;
use crate::hir::{FuncId, FuncSig, GlobalInfo, HFunc, HType, HirModule, StructId, SymTab};
use crate::lowered;
use crate::operators;
use crate::operators::emit_global_init;
use crate::runtime::freestanding::{BANNER, FREESTANDING_HEADERS, FREESTANDING_RUNTIME};
use crate::runtime::hosted::{
    BASE_RUNTIME, CANCEL, CHANNELS, FIBER_POOL, FIBER_SCHEDULER, FIBER_STATE, IO_REACTOR,
    JOB_POOL, JOIN, JOIN_ALL, JOIN_TIMEOUT, KERNEL_PRIMITIVES, PAR_BYTES, PAR_FLOAT_SLICES,
    PAR_INT_SCAN, PAR_INT_SLICES, PAR_RANGES, PLATFORM_COMPAT, PLATFORM_HEADERS, REACTOR_BACKENDS,
    READY_QUEUE, SCHEDULER_STATE, SELECT, SELECT_TIMEOUT, SLEEP, SYNC_PRIMITIVES, THREADS,
    TRY_JOIN, WATCHDOG,
};
use crate::runtime::sockets::{
    FILES, FILE_ASYNC, FILE_TREES, LINUX_EVENTS, PORTABLE_EVENTS, PROCESSES, RANDOM_AND_ARGS,
    SHIMS, STRINGS, STRING_SLICES, TCP_SOCKETS, TLS, UDP, UNIX_SOCKETS,
};
use crate::scan;
use crate::scan::{Noted, Notes, scan_func};
use crate::sorted::SortedMap;
use crate::text;
use crate::text::{cat2, cat3, cat4, cat7, dec_u64, join, line, no_parts, own, push_part, str_eq};
use crate::typedefs;
use crate::typedefs::{emit_slice_typedefs, emit_vec_typedefs};

verus! {

/// The first `n` system headers that the module asks for.
pub open spec fn headers_text(headers: Seq<String>, n: nat) -> Seq<char>
    decreases n,
{
    if n == 0 || n > headers.len() {
        ""@
    } else {
        headers_text(headers, (n - 1) as nat) + ("#include <"@ + headers[n - 1]@ + ">\n"@)
    }
}

fn emit_headers(headers: &Vec<String>) -> (r: String)
    ensures
        r@ == headers_text(headers@, headers@.len()),
{
    let mut out: String = own("");
    let mut i: usize = 0;
    while i < headers.len()
        invariant
            i <= headers@.len(),
            out@ == headers_text(headers@, i as nat),
        decreases headers@.len() - i,
    {
        out.append(&cat3("#include <", &headers[i], ">\n"));
        i += 1;
    }
    out
}

/// The runtime of a hosted program.
pub open spec fn hosted_runtime() -> Seq<char> {
    BASE_RUNTIME@ + PLATFORM_COMPAT@ + KERNEL_PRIMITIVES@ + CHANNELS@ + THREADS@ + FIBER_STATE@
        + REACTOR_BACKENDS@ + READY_QUEUE@ + WATCHDOG@ + FIBER_SCHEDULER@ + SCHEDULER_STATE@
        + FIBER_POOL@ + IO_REACTOR@ + JOB_POOL@ + JOIN@ + TRY_JOIN@ + JOIN_TIMEOUT@ + CANCEL@
        + JOIN_ALL@ + SELECT@ + SELECT_TIMEOUT@ + SLEEP@ + PAR_RANGES@ + SYNC_PRIMITIVES@
        + PAR_INT_SLICES@ + PAR_FLOAT_SLICES@ + PAR_BYTES@ + PAR_INT_SCAN@
}

/// What stands before a module's own declarations: headers and the runtime.
pub open spec fn prologue_text(headers: Seq<String>, freestanding: bool) -> Seq<char> {
    if freestanding {
        BANNER@ + FREESTANDING_HEADERS@ + headers_text(headers, headers.len())
            + FREESTANDING_RUNTIME@
    } else {
        BANNER@ + PLATFORM_HEADERS@ + headers_text(headers, headers.len()) + hosted_runtime()
    }
}

fn emit_hosted_runtime() -> (r: String)
    ensures
        r@ == hosted_runtime(),
{
    let mut out: String = own(BASE_RUNTIME);
    out.append(PLATFORM_COMPAT);
    out.append(KERNEL_PRIMITIVES);
    out.append(CHANNELS);
    out.append(THREADS);
    out.append(FIBER_STATE);
    out.append(REACTOR_BACKENDS);
    out.append(READY_QUEUE);
    out.append(WATCHDOG);
    out.append(FIBER_SCHEDULER);
    out.append(SCHEDULER_STATE);
    out.append(FIBER_POOL);
    out.append(IO_REACTOR);
    out.append(JOB_POOL);
    out.append(JOIN);
    out.append(TRY_JOIN);
    out.append(JOIN_TIMEOUT);
    out.append(CANCEL);
    out.append(JOIN_ALL);
    out.append(SELECT);
    out.append(SELECT_TIMEOUT);
    out.append(SLEEP);
    out.append(PAR_RANGES);
    out.append(SYNC_PRIMITIVES);
    out.append(PAR_INT_SLICES);
    out.append(PAR_FLOAT_SLICES);
    out.append(PAR_BYTES);
    out.append(PAR_INT_SCAN);
    out
}

/// Writes the prologue of a module without a C library.
fn emit_freestanding_prologue(headers: &Vec<String>) -> (r: String)
    ensures
        r@ == prologue_text(headers@, true),
{
    cat4(BANNER, FREESTANDING_HEADERS, &emit_headers(headers), FREESTANDING_RUNTIME)
}

/// Writes the prologue.
pub fn emit_prologue(headers: &Vec<String>, freestanding: bool) -> (r: String)
    ensures
        r@ == prologue_text(headers@, freestanding),
{
    if freestanding {
        return emit_freestanding_prologue(headers);
    }
    cat4(BANNER, PLATFORM_HEADERS, &emit_headers(headers), &emit_hosted_runtime())
}

/// The socket, file and process helpers. They stand last, so that the names of the
/// system headers they need do not clash with those of the program.
pub open spec fn socket_helpers() -> Seq<char> {
    TCP_SOCKETS@ + TLS@ + UNIX_SOCKETS@ + FILE_ASYNC@ + FILES@ + SHIMS@ + STRINGS@
        + RANDOM_AND_ARGS@ + STRING_SLICES@ + PROCESSES@ + FILE_TREES@ + UDP@ + LINUX_EVENTS@
        + PORTABLE_EVENTS@
}

/// Writes the socket, file and process helpers.
pub fn emit_socket_helpers() -> (r: String)
    ensures
        r@ == socket_helpers(),
{
    let mut out: String = own(TCP_SOCKETS);
    out.append(TLS);
    out.append(UNIX_SOCKETS);
    out.append(FILE_ASYNC);
    out.append(FILES);
    out.append(SHIMS);
    out.append(STRINGS);
    out.append(RANDOM_AND_ARGS);
    out.append(STRING_SLICES);
    out.append(PROCESSES);
    out.append(FILE_TREES);
    out.append(UDP);
    out.append(LINUX_EVENTS);
    out.append(PORTABLE_EVENTS);
    out
}

/// What is known before the first type: the hosted runtime uses two slice types.
pub open spec fn first_notes(freestanding: bool) -> Noted {
    if freestanding {
        scan::nothing()
    } else {
        Noted { slices: Set::empty().insert("maka_int"@).insert("maka_float"@), ..scan::nothing() }
    }
}

/// The function is written; templates are not, only their instances are.
pub open spec fn is_concrete(sym: SymTab, f: HFunc) -> bool {
    sym.the_sig(f.id).type_params@.len() == 0
}

/// Every function has a signature.
pub open spec fn funcs_signed(sym: SymTab) -> bool {
    forall|i: int| 0 <= i < sym.funcs@.len() ==> sym.has_sig((#[trigger] sym.funcs@[i]).id)
}

/// What is known after the first `k` functions were seen.
pub open spec fn scanned_funcs(sym: SymTab, k: nat, n: Noted) -> Noted
    decreases k,
{
    if k == 0 || k > sym.funcs@.len() {
        n
    } else {
        let before = scanned_funcs(sym, (k - 1) as nat, n);
        let f = sym.funcs@[k - 1];
        if is_concrete(sym, f) { scan::scanned_func(sym, f, before) } else { before }
    }
}

/// The functions that are written can be scanned.
pub open spec fn funcs_scan_ok(sym: SymTab) -> bool {
    forall|i: int|
        0 <= i < sym.funcs@.len() && is_concrete(sym, #[trigger] sym.funcs@[i]) ==> scan::scan_func_ok(
            sym,
            sym.funcs@[i],
        )
}

fn scan_funcs<'a>(sym: &'a SymTab, n: &mut Notes<'a>)
    requires
        old(n).wf(),
        funcs_signed(*sym),
        funcs_scan_ok(*sym),
    ensures
        final(n).wf(),
        final(n).noted() == scanned_funcs(*sym, sym.funcs@.len(), old(n).noted()),
{
    let mut i: usize = 0;
    while i < sym.funcs.len()
        invariant
            i <= sym.funcs@.len(),
            n.wf(),
            funcs_signed(*sym),
            funcs_scan_ok(*sym),
            n.noted() == scanned_funcs(*sym, i as nat, old(n).noted()),
        decreases sym.funcs@.len() - i,
    {
        let f: &HFunc = &sym.funcs[i];
        assert(sym.has_sig(sym.funcs@[i as int].id));
        if sym.func_sig(f.id).type_params.len() == 0 {
            assert(is_concrete(*sym, sym.funcs@[i as int]));
            scan_func(sym, f, n);
        }
        i += 1;
    }
}

/// The first `n` raw C blocks, each on lines of its own.
pub open spec fn blocks_text(blocks: Seq<String>, n: nat) -> Seq<char>
    decreases n,
{
    if n == 0 || n > blocks.len() {
        ""@
    } else {
        blocks_text(blocks, (n - 1) as nat) + blocks[n - 1]@ + "\n"@
    }
}

fn emit_blocks(blocks: &Vec<String>) -> (r: String)
    ensures
        r@ == blocks_text(blocks@, blocks@.len()),
{
    let mut out: String = own("");
    let mut i: usize = 0;
    while i < blocks.len()
        invariant
            i <= blocks@.len(),
            out@ == blocks_text(blocks@, i as nat),
        decreases blocks@.len() - i,
    {
        out.append(&blocks[i]);
        out.append("\n");
        i += 1;
    }
    out
}

/// The first `n` parameters of a foreign function; those without a name get one.
pub open spec fn foreign_params(sym: SymTab, sig: FuncSig, n: nat) -> Seq<Seq<char>> {
    Seq::new(
        n,
        |i: int|
            ctypes::ty_c(sym, sig.param_tys@[i]) + " "@ + (if i < sig.param_names@.len() {
                sig.param_names@[i]@
            } else {
                "p"@ + text::decimal(i)
            }),
    )
}

/// The parameter list of a foreign function.
pub open spec fn foreign_list(sym: SymTab, sig: FuncSig) -> Seq<char> {
    let n = sig.param_tys@.len();
    if n == 0 && !sig.is_variadic {
        "void"@
    } else {
        text::joined(foreign_params(sym, sig, n), ", "@) + (if sig.is_variadic {
            (if n == 0 { ""@ } else { ", "@ }) + "..."@
        } else {
            ""@
        })
    }
}

/// The types of the signature can be spelled.
pub open spec fn foreign_ok(sym: SymTab, sig: FuncSig) -> bool {
    &&& ctypes::ty_ok(sym, sig.ret)
    &&& forall|i: int| 0 <= i < sig.param_tys@.len() ==> ctypes::ty_ok(sym, #[trigger] sig.param_tys@[i])
}

/// The declarations of the foreign functions among the first `n` signatures.
pub open spec fn foreign_text(sym: SymTab, n: nat) -> Seq<char>
    decreases n,
{
    if n == 0 || n > sym.sigs@.len() {
        ""@
    } else {
        let before = foreign_text(sym, (n - 1) as nat);
        let sig = sym.sigs@[n - 1];
        if sig.is_extern {
            before + text::line_c(
                ""@,
                "extern "@ + ctypes::ret_c(sym, sig.ret) + " "@ + sig.c_name@ + "("@ + foreign_list(
                    sym,
                    sig,
                ) + ");"@,
            )
        } else {
            before
        }
    }
}

/// The declarations of the foreign functions can be written.
pub open spec fn foreigns_ok(sym: SymTab) -> bool {
    forall|i: int|
        0 <= i < sym.sigs@.len() && (#[trigger] sym.sigs@[i]).is_extern ==> foreign_ok(
            sym,
            sym.sigs@[i],
        )
}

fn foreign_parameters(sym: &SymTab, sig: &FuncSig) -> (r: String)
    requires
        foreign_ok(*sym, *sig),
    ensures
        r@ == foreign_list(*sym, *sig),
{
    let total: usize = sig.param_tys.len();
    if total == 0 && !sig.is_variadic {
        return own("void");
    }
    let mut parts: Vec<String> = no_parts();
    let mut i: usize = 0;
    assert(foreign_params(*sym, *sig, 0) =~= Seq::<Seq<char>>::empty());
    while i < total
        invariant
            i <= total,
            total == sig.param_tys@.len(),
            foreign_ok(*sym, *sig),
            text::views(parts@) == foreign_params(*sym, *sig, i as nat),
        decreases total - i,
    {
        assert(ctypes::ty_ok(*sym, sig.param_tys@[i as int]));
        let name: String = if i < sig.param_names.len() {
            own(&sig.param_names[i])
        } else {
            cat2("p", &dec_u64(i as u64))
        };
        let p: String = cat3(&c_type(sym, &sig.param_tys[i]), " ", &name);
        assert(foreign_params(*sym, *sig, (i + 1) as nat) =~= foreign_params(
            *sym,
            *sig,
            i as nat,
        ).push(p@));
        push_part(&mut parts, p);
        i += 1;
    }
    let rest: String = if sig.is_variadic {
        cat2(if total == 0 { "" } else { ", " }, "...")
    } else {
        own("")
    };
    cat2(&join(&parts, ", "), &rest)
}

fn emit_foreign(sym: &SymTab) -> (r: String)
    requires
        foreigns_ok(*sym),
    ensures
        r@ == foreign_text(*sym, sym.sigs@.len()),
{
    let mut out: String = own("");
    let mut i: usize = 0;
    while i < sym.sigs.len()
        invariant
            i <= sym.sigs@.len(),
            foreigns_ok(*sym),
            out@ == foreign_text(*sym, i as nat),
        decreases sym.sigs@.len() - i,
    {
        let sig: &FuncSig = &sym.sigs[i];
        if sig.is_extern {
            assert(foreign_ok(*sym, sym.sigs@[i as int]));
            let text: String = cat7(
                "extern ",
                &c_ret_type(sym, &sig.ret),
                " ",
                &sig.c_name,
                "(",
                &foreign_parameters(sym, sig),
                ");",
            );
            out.append(&line("", &text));
        }
        i += 1;
    }
    out
}

/// The function has a C definition.
pub open spec fn is_defined(sym: SymTab, f: HFunc) -> bool {
    is_concrete(sym, f) && !sym.the_sig(f.id).is_inline
}

/// The declarations of those of the first `n` functions that are defined.
pub open spec fn prototypes_text(sym: SymTab, n: nat) -> Seq<char>
    decreases n,
{
    if n == 0 || n > sym.funcs@.len() {
        ""@
    } else {
        let before = prototypes_text(sym, (n - 1) as nat);
        let f = sym.funcs@[n - 1];
        if is_defined(sym, f) {
            before + text::line_c(""@, ctypes::signature_c(sym, f) + ";"@)
        } else {
            before
        }
    }
}

/// The functions that are written can be written.
pub open spec fn funcs_ok(d: nat, sym: SymTab) -> bool {
    forall|i: int|
        0 <= i < sym.funcs@.len() && is_concrete(sym, #[trigger] sym.funcs@[i]) ==> functions::func_ok(
            d,
            sym,
            sym.funcs@[i],
        )
}

fn emit_prototypes(sym: &SymTab, Ghost(d): Ghost<nat>) -> (r: String)
    requires
        funcs_signed(*sym),
        funcs_ok(d, *sym),
    ensures
        r@ == prototypes_text(*sym, sym.funcs@.len()),
{
    let mut out: String = own("");
    let mut i: usize = 0;
    while i < sym.funcs.len()
        invariant
            i <= sym.funcs@.len(),
            funcs_signed(*sym),
            funcs_ok(d, *sym),
            out@ == prototypes_text(*sym, i as nat),
        decreases sym.funcs@.len() - i,
    {
        let f: &HFunc = &sym.funcs[i];
        assert(sym.has_sig(sym.funcs@[i as int].id));
        let sig: &FuncSig = sym.func_sig(f.id);
        if sig.type_params.len() == 0 && !sig.is_inline {
            assert(is_concrete(*sym, sym.funcs@[i as int]));
            out.append(&line("", &cat2(&func_signature(sym, f), ";")));
        }
        i += 1;
    }
    out
}

/// The definitions of the first `n` globals.
pub open spec fn globals_text(sym: SymTab, n: nat) -> Seq<char>
    decreases n,
{
    if n == 0 || n > sym.globals@.len() {
        ""@
    } else {
        let g = sym.globals@[n - 1];
        globals_text(sym, (n - 1) as nat) + text::line_c(
            ""@,
            "static "@ + ctypes::ty_c(sym, g.ty) + " "@ + g.c_name@ + " = "@ + operators::global_init_text(g.init)
                + ";"@,
        )
    }
}

/// The types of the globals can be spelled.
pub open spec fn globals_ok(sym: SymTab) -> bool {
    forall|i: int| 0 <= i < sym.globals@.len() ==> ctypes::ty_ok(sym, (#[trigger] sym.globals@[i]).ty)
}

fn emit_globals(sym: &SymTab) -> (r: String)
    requires
        globals_ok(*sym),
    ensures
        r@ == globals_text(*sym, sym.globals@.len()),
{
    let mut out: String = own("");
    let mut i: usize = 0;
    while i < sym.globals.len()
        invariant
            i <= sym.globals@.len(),
            globals_ok(*sym),
            out@ == globals_text(*sym, i as nat),
        decreases sym.globals@.len() - i,
    {
        let g: &GlobalInfo = &sym.globals[i];
        let text: String = cat7(
            "static ",
            &c_type(sym, &g.ty),
            " ",
            &g.c_name,
            " = ",
            &emit_global_init(&g.init),
            ";",
        );
        out.append(&line("", &text));
        i += 1;
    }
    out
}

/// The state before the first function.
pub open spec fn first_state() -> St {
    St { aliased: Set::empty(), seq: 0 }
}

/// The definitions of those of the first `n` functions that are written.
pub open spec fn funcs_c(d: nat, sym: SymTab, owns: Set<Seq<char>>, n: nat) -> Out
    decreases n,
{
    if n == 0 || n > sym.funcs@.len() {
        Out { text: ""@, st: first_state() }
    } else {
        let before = funcs_c(d, sym, owns, (n - 1) as nat);
        let f = sym.funcs@[n - 1];
        if is_concrete(sym, f) {
            let o = functions::func_c(d, sym, owns, before.st, f);
            lowered::with_text(o, before.text + o.text)
        } else {
            before
        }
    }
}

fn emit_funcs(sym: &SymTab, owns: &SortedMap<String, ()>, Ghost(d): Ghost<nat>) -> (r: String)
    requires
        owns.wf(),
        funcs_signed(*sym),
        funcs_ok(d, *sym),
    ensures
        r@ == funcs_c(d, *sym, owns.dom(), sym.funcs@.len()).text,
{
    let mut st: State = State::new();
    let mut out: String = own("");
    let mut i: usize = 0;
    while i < sym.funcs.len()
        invariant
            i <= sym.funcs@.len(),
            owns.wf(),
            st.wf(),
            funcs_signed(*sym),
            funcs_ok(d, *sym),
            (Out { text: out@, st: st.st() }) == funcs_c(d, *sym, owns.dom(), i as nat),
        decreases sym.funcs@.len() - i,
    {
        let f: &HFunc = &sym.funcs[i];
        assert(sym.has_sig(sym.funcs@[i as int].id));
        if sym.func_sig(f.id).type_params.len() == 0 {
            assert(is_concrete(*sym, sym.funcs@[i as int]));
            let text: String = emit_func(sym, owns, &mut st, Ghost(d), f);
            out.append(&text);
        }
        i += 1;
    }
    out
}

/// Some function is written.
pub open spec fn any_concrete(sym: SymTab) -> bool {
    exists|i: int| 0 <= i < sym.funcs@.len() && is_concrete(sym, #[trigger] sym.funcs@[i])
}

fn has_concrete(sym: &SymTab) -> (r: bool)
    requires
        funcs_signed(*sym),
    ensures
        r == any_concrete(*sym),
{
    let total: usize = sym.funcs.len();
    let mut i: usize = 0;
    while i < total
        invariant
            i <= total,
            total == sym.funcs@.len(),
            funcs_signed(*sym),
            forall|j: int| 0 <= j < i ==> !is_concrete(*sym, #[trigger] sym.funcs@[j]),
        decreases total - i,
    {
        assert(sym.has_sig(sym.funcs@[i as int].id));
        if sym.func_sig(sym.funcs[i].id).type_params.len() == 0 {
            assert(is_concrete(*sym, sym.funcs@[i as int]));
            return true;
        }
        i += 1;
    }
    false
}

/// The first function called `main` that is written, from `from` on.
pub open spec fn main_from(sym: SymTab, from: nat) -> Option<HFunc>
    decreases sym.funcs@.len() - from,
{
    if from >= sym.funcs@.len() {
        None
    } else {
        let f = sym.funcs@[from as int];
        if is_concrete(sym, f) && f.name@ == "main"@ { Some(f) } else { main_from(sym, from + 1) }
    }
}

fn find_main(sym: &SymTab) -> (r: Option<&HFunc>)
    requires
        funcs_signed(*sym),
    ensures
        match r {
            Some(f) => main_from(*sym, 0) == Some(*f) && sym.has_sig(f.id),
            None => main_from(*sym, 0) is None,
        },
{
    let mut i: usize = 0;
    while i < sym.funcs.len()
        invariant
            i <= sym.funcs@.len(),
            funcs_signed(*sym),
            main_from(*sym, 0) == main_from(*sym, i as nat),
        decreases sym.funcs@.len() - i,
    {
        let f: &HFunc = &sym.funcs[i];
        assert(sym.has_sig(sym.funcs@[i as int].id));
        if sym.func_sig(f.id).type_params.len() == 0 && str_eq(&f.name, "main") {
            return Some(f);
        }
        i += 1;
    }
    None
}

/// The entry point takes the command line.
pub open spec fn takes_args(sig: FuncSig) -> bool {
    sig.param_tys@.len() == 1 && match sig.param_tys@[0] {
        HType::Slice { elem, .. } => *elem is Str,
        _ => false,
    }
}

fn wants_args(sig: &FuncSig) -> (r: bool)
    ensures
        r == takes_args(*sig),
{
    if sig.param_tys.len() != 1 {
        return false;
    }
    match &sig.param_tys[0] {
        HType::Slice { elem, .. } => match &**elem {
            HType::Str => true,
            _ => false,
        },
        _ => false,
    }
}

/// The C entry point, which calls the program's.
pub open spec fn main_text(sym: SymTab) -> Seq<char> {
    text::line_c(
        ""@,
        match main_from(sym, 0) {
            Some(f) => if takes_args(sym.the_sig(f.id)) {
                if f.ret is Int {
                    MAIN_ARGS_STATUS@
                } else {
                    MAIN_ARGS@
                }
            } else {
                if f.ret is Int {
                    MAIN_STATUS@
                } else {
                    MAIN_PLAIN@
                }
            },
            None => "int main(void) { return 0; }"@,
        },
    )
}

/// The entry point of a program that takes the command line and returns a status.
pub const MAIN_ARGS_STATUS: &'static str = "int main(int argc, char** argv) { __maka_rt_set_args(argc, argv); Slice_str args = { .ptr = (const char**)argv, .len = (maka_int)argc }; return (int)maka_main(args); }";

/// The entry point of a program that takes the command line.
pub const MAIN_ARGS: &'static str = "int main(int argc, char** argv) { __maka_rt_set_args(argc, argv); Slice_str args = { .ptr = (const char**)argv, .len = (maka_int)argc }; maka_main(args); return 0; }";

/// The entry point of a program that returns a status.
pub const MAIN_STATUS: &'static str = "int main(int argc, char** argv) { __maka_rt_set_args(argc, argv); return (int)maka_main(); }";

/// The entry point of any other program.
pub const MAIN_PLAIN: &'static str = "int main(int argc, char** argv) { __maka_rt_set_args(argc, argv); maka_main(); return 0; }";

fn emit_main(sym: &SymTab) -> (r: String)
    requires
        funcs_signed(*sym),
    ensures
        r@ == main_text(*sym),
{
    let text: &str = match find_main(sym) {
        Some(f) => {
            let status: bool = match &f.ret {
                HType::Int => true,
                _ => false,
            };
            if wants_args(sym.func_sig(f.id)) {
                if status { MAIN_ARGS_STATUS } else { MAIN_ARGS }
            } else {
                if status { MAIN_STATUS } else { MAIN_PLAIN }
            }
        },
        None => "int main(void) { return 0; }",
    };
    line("", text)
}

/// What is known once the types and the functions have been seen.
pub open spec fn module_notes(sym: SymTab, freestanding: bool) -> Noted {
    scanned_funcs(sym, sym.funcs@.len(), definitions::types_noted(sym, first_notes(freestanding)))
}

/// How deep inline calls may nest: no chain of them that ends is longer than the
/// number of functions.
pub open spec fn max_depth(sym: SymTab) -> nat {
    sym.funcs@.len()
}

/// The module can be written: every id that its code uses is in range, every type that
/// is spelled can be, and no inline function expands into itself.
pub open spec fn module_ok(m: HirModule, freestanding: bool) -> bool {
    let sym = m.sym;
    let seen = module_notes(sym, freestanding);
    &&& definitions::types_ok(sym)
    &&& funcs_signed(sym)
    &&& funcs_scan_ok(sym)
    &&& funcs_ok(max_depth(sym), sym)
    &&& dispatch::traits_ok(sym, seen.traits)
    &&& dispatch::callables_ok(sym, seen.callables)
    &&& dispatch::insts_ok(sym, seen.insts)
    &&& dispatch::trampolines_ok(sym, seen.refs)
    &&& dispatch::closure_trampolines_ok(sym, seen.closures)
    &&& foreigns_ok(sym)
    &&& globals_ok(sym)
    &&& drops::drops_ok(sym)
}

/// The headers, the runtime and every type that the declarations need.
pub open spec fn module_types(m: HirModule, freestanding: bool) -> Seq<char> {
    let start = definitions::with_types(
        m.sym,
        prologue_text(m.cincludes@, freestanding),
        first_notes(freestanding),
    );
    let seen = module_notes(m.sym, freestanding);
    typedefs::with_vecs(typedefs::with_slices(start, seen.slices), seen.vecs)
}

/// All that stands before the function definitions.
pub open spec fn declarations_text(m: HirModule, freestanding: bool) -> Seq<char> {
    let sym = m.sym;
    let seen = module_notes(sym, freestanding);
    module_types(m, freestanding) + dispatch::dyn_typedefs(sym, seen.traits) + dispatch::callable_typedefs(
        sym,
        seen.callables,
    ) + blocks_text(m.cblocks@, m.cblocks@.len()) + foreign_text(sym, sym.sigs@.len())
        + prototypes_text(sym, sym.funcs@.len()) + text::line_c(""@, ""@) + dispatch::vtables(sym, seen.insts)
        + dispatch::trampolines(sym, seen.refs, any_concrete(sym)) + dispatch::closure_trampolines(sym, seen.closures)
        + globals_text(sym, sym.globals@.len()) + drops::drop_glue_c(sym, drops::owning_names(sym))
}

/// The function definitions.
pub open spec fn definitions_of(sym: SymTab) -> Seq<char> {
    funcs_c(max_depth(sym), sym, drops::owning_names(sym), sym.funcs@.len()).text
}

/// The C text of a module. A freestanding one has neither the socket helpers nor a C
/// entry point.
pub open spec fn module_c(m: HirModule, freestanding: bool) -> Seq<char> {
    let body = declarations_text(m, freestanding) + definitions_of(m.sym);
    if freestanding {
        body
    } else {
        body + socket_helpers() + main_text(m.sym)
    }
}

/// Writes a module.
pub(crate) fn emit_module(m: &HirModule, freestanding: bool) -> (r: String)
    requires
        module_ok(*m, freestanding),
    ensures
        r@ == module_c(*m, freestanding),
        typedefs_there(m.sym, module_notes(m.sym, freestanding), r@),
        uses_there(m.sym, module_notes(m.sym, freestanding), r@),
{
    let sym: &SymTab = &m.sym;
    let ghost d: nat = max_depth(*sym);
    let mut n: Notes = Notes::new();
    if !freestanding {
        n.slices.insert(own("maka_int"), ());
        n.slices.insert(own("maka_float"), ());
    }
    assert(n.noted() =~= first_notes(freestanding));
    let mut out: String = emit_prologue(&m.cincludes, freestanding);
    emit_structs_and_enums(sym, &mut out, &mut n);
    scan_funcs(sym, &mut n);
    emit_slice_typedefs(&mut out, &n.slices);
    emit_vec_typedefs(&mut out, &n.vecs);
    assert(out@ == module_types(*m, freestanding));
    let ghost types: Seq<char> = out@;
    assert(typedefs_there(*sym, module_notes(*sym, freestanding), types));
    out.append(&emit_dyn_typedefs(sym, &n.traits));
    out.append(&emit_callable_typedefs(sym, &n.callables));
    out.append(&emit_blocks(&m.cblocks));
    out.append(&emit_foreign(sym));
    out.append(&emit_prototypes(sym, Ghost(d)));
    out.append(&line("", ""));
    out.append(&emit_dyn_vtable_instances(sym, &n.insts));
    out.append(&emit_trampolines(sym, &n.refs, has_concrete(sym)));
    out.append(&emit_closure_trampolines(sym, &n.closures));
    out.append(&emit_globals(sym));
    proof {
        drops::lemma_drops_embed(*sym);
    }
    let owns: SortedMap<String, ()> = compute_drop_owns(sym);
    out.append(&emit_drop_glue(sym, &owns));
    out.append(&emit_funcs(sym, &owns, Ghost(d)));
    if !freestanding {
        out.append(&emit_socket_helpers());
        out.append(&emit_main(sym));
    }
    proof {
        lemma_typedefs_kept(*m, freestanding);
        lemma_uses_kept(*m, freestanding);
    }
    out
}

/// The output holds the typedef of every noted slice and vector.
pub open spec fn typedefs_there(sym: SymTab, n: Noted, out: Seq<char>) -> bool {
    &&& forall|k: Seq<char>| #[trigger]
        n.slices.contains(k) ==> text::has_part(out, typedefs::typedef_mark("Slice_"@ + k))
    &&& forall|k: Seq<char>| #[trigger]
        n.vecs.contains(k) ==> text::has_part(out, typedefs::typedef_mark("Vec_"@ + k))
}

/// What a section before the function definitions holds, all of them together hold.
pub proof fn lemma_in_declarations(m: HirModule, freestanding: bool, part: Seq<char>)
    requires
        text::has_part(module_types(m, freestanding), part) || text::has_part(
            blocks_text(m.cblocks@, m.cblocks@.len()),
            part,
        ) || text::has_part(foreign_text(m.sym, m.sym.sigs@.len()), part) || text::has_part(
            prototypes_text(m.sym, m.sym.funcs@.len()),
            part,
        ) || text::has_part(globals_text(m.sym, m.sym.globals@.len()), part) || text::has_part(
            drops::drop_glue_c(m.sym, drops::owning_names(m.sym)),
            part,
        ) || text::has_part(
            dispatch::dyn_typedefs(m.sym, module_notes(m.sym, freestanding).traits),
            part,
        ) || text::has_part(
            dispatch::callable_typedefs(m.sym, module_notes(m.sym, freestanding).callables),
            part,
        ) || text::has_part(dispatch::vtables(m.sym, module_notes(m.sym, freestanding).insts), part) || text::has_part(
            dispatch::trampolines(m.sym, module_notes(m.sym, freestanding).refs, any_concrete(m.sym)),
            part,
        ) || text::has_part(
            dispatch::closure_trampolines(m.sym, module_notes(m.sym, freestanding).closures),
            part,
        ),
    ensures
        text::has_part(declarations_text(m, freestanding), part),
{
    let sym = m.sym;
    let seen = module_notes(sym, freestanding);
    let owns = drops::owning_names(sym);
    let o1 = module_types(m, freestanding);
    let o2 = o1 + dispatch::dyn_typedefs(sym, seen.traits);
    let o3 = o2 + dispatch::callable_typedefs(sym, seen.callables);
    let o4 = o3 + blocks_text(m.cblocks@, m.cblocks@.len());
    let o5 = o4 + foreign_text(sym, sym.sigs@.len());
    let o6 = o5 + prototypes_text(sym, sym.funcs@.len());
    let o7 = o6 + text::line_c(""@, ""@);
    let o8 = o7 + dispatch::vtables(sym, seen.insts);
    let o9 = o8 + dispatch::trampolines(sym, seen.refs, any_concrete(sym));
    let o10 = o9 + dispatch::closure_trampolines(sym, seen.closures);
    let o11 = o10 + globals_text(sym, sym.globals@.len());
    text::lemma_part_either(o1, dispatch::dyn_typedefs(sym, seen.traits), part);
    text::lemma_part_either(o2, dispatch::callable_typedefs(sym, seen.callables), part);
    text::lemma_part_either(o3, blocks_text(m.cblocks@, m.cblocks@.len()), part);
    text::lemma_part_either(o4, foreign_text(sym, sym.sigs@.len()), part);
    text::lemma_part_either(o5, prototypes_text(sym, sym.funcs@.len()), part);
    text::lemma_part_either(o6, text::line_c(""@, ""@), part);
    text::lemma_part_either(o7, dispatch::vtables(sym, seen.insts), part);
    text::lemma_part_either(o8, dispatch::trampolines(sym, seen.refs, any_concrete(sym)), part);
    text::lemma_part_either(o9, dispatch::closure_trampolines(sym, seen.closures), part);
    text::lemma_part_either(o10, globals_text(sym, sym.globals@.len()), part);
    text::lemma_part_either(o11, drops::drop_glue_c(sym, owns), part);
}

/// What stands before the function definitions is a part of the module.
pub proof fn lemma_declarations_kept(m: HirModule, freestanding: bool, part: Seq<char>)
    requires
        text::has_part(declarations_text(m, freestanding), part),
    ensures
        text::has_part(module_c(m, freestanding), part),
{
    let body = declarations_text(m, freestanding) + definitions_of(m.sym);
    text::lemma_part_kept(declarations_text(m, freestanding), definitions_of(m.sym), part);
    text::lemma_part_kept(body, socket_helpers(), part);
    text::lemma_part_kept(body + socket_helpers(), main_text(m.sym), part);
}

proof fn lemma_declared(m: HirModule, freestanding: bool, part: Seq<char>)
    requires
        text::has_part(module_types(m, freestanding), part),
    ensures
        text::has_part(module_c(m, freestanding), part),
{
    lemma_in_declarations(m, freestanding, part);
    lemma_declarations_kept(m, freestanding, part);
}

proof fn lemma_typedefs_kept(m: HirModule, freestanding: bool)
    requires
        typedefs_there(
            m.sym,
            module_notes(m.sym, freestanding),
            module_types(m, freestanding),
        ),
    ensures
        typedefs_there(m.sym, module_notes(m.sym, freestanding), module_c(m, freestanding)),
{
    let n = module_notes(m.sym, freestanding);
    assert forall|k: Seq<char>| #[trigger] n.slices.contains(k) implies text::has_part(
        module_c(m, freestanding),
        typedefs::typedef_mark("Slice_"@ + k),
    ) by {
        lemma_declared(m, freestanding, typedefs::typedef_mark("Slice_"@ + k));
    }
    assert forall|k: Seq<char>| #[trigger] n.vecs.contains(k) implies text::has_part(
        module_c(m, freestanding),
        typedefs::typedef_mark("Vec_"@ + k),
    ) by {
        lemma_declared(m, freestanding, typedefs::typedef_mark("Vec_"@ + k));
    }
}

/// The output holds what every noted use relies on: the types of trait objects and function
/// values, the method tables and the trampolines.
pub open spec fn uses_there(sym: SymTab, n: Noted, out: Seq<char>) -> bool {
    &&& dispatch::traits_there(sym, n.traits, out)
    &&& dispatch::callables_there(sym, n.callables, out)
    &&& dispatch::tables_there(sym, n.insts, out)
    &&& dispatch::trampolines_there(sym, n.refs, any_concrete(sym), out)
    &&& dispatch::closures_there(sym, n.closures, out)
}

proof fn lemma_section_kept(m: HirModule, freestanding: bool, part: Seq<char>)
    requires
        ({
            let n = module_notes(m.sym, freestanding);
            ||| text::has_part(dispatch::dyn_typedefs(m.sym, n.traits), part)
            ||| text::has_part(dispatch::callable_typedefs(m.sym, n.callables), part)
            ||| text::has_part(dispatch::vtables(m.sym, n.insts), part)
            ||| text::has_part(dispatch::trampolines(m.sym, n.refs, any_concrete(m.sym)), part)
            ||| text::has_part(dispatch::closure_trampolines(m.sym, n.closures), part)
        }),
    ensures
        text::has_part(module_c(m, freestanding), part),
{
    lemma_in_declarations(m, freestanding, part);
    lemma_declarations_kept(m, freestanding, part);
}

proof fn lemma_uses_kept(m: HirModule, freestanding: bool)
    requires
        ({
            let n = module_notes(m.sym, freestanding);
            &&& dispatch::traits_there(m.sym, n.traits, dispatch::dyn_typedefs(m.sym, n.traits))
            &&& dispatch::callables_there(m.sym, n.callables, dispatch::callable_typedefs(m.sym, n.callables))
            &&& dispatch::tables_there(m.sym, n.insts, dispatch::vtables(m.sym, n.insts))
            &&& dispatch::trampolines_there(
                m.sym,
                n.refs,
                any_concrete(m.sym),
                dispatch::trampolines(m.sym, n.refs, any_concrete(m.sym)),
            )
            &&& dispatch::closures_there(m.sym, n.closures, dispatch::closure_trampolines(m.sym, n.closures))
        }),
    ensures
        uses_there(m.sym, module_notes(m.sym, freestanding), module_c(m, freestanding)),
{
    let sym = m.sym;
    let n = module_notes(sym, freestanding);
    let out = module_c(m, freestanding);
    assert forall|name: Seq<char>| #[trigger] n.traits.contains(name) implies match sym.logic_from(
        name,
        0,
    ) {
        Some(i) => text::has_part(out, dispatch::trait_text(sym, sym.logics@[i], name)),
        None => true,
    } by {
        if let Some(i) = sym.logic_from(name, 0) {
            lemma_section_kept(m, freestanding, dispatch::trait_text(sym, sym.logics@[i], name));
        }
    }
    assert forall|k: Seq<char>| #[trigger] n.callables.dom().contains(k) implies text::has_part(
        out,
        dispatch::callable_text(sym, k, n.callables[k]),
    ) by {
        lemma_section_kept(m, freestanding, dispatch::callable_text(sym, k, n.callables[k]));
    }
    assert forall|inst: (Seq<char>, u32)| #[trigger]
        n.insts.contains(inst) implies match sym.logic_from(inst.0, 0) {
        Some(i) => text::has_part(out, dispatch::table_text(sym, sym.logics@[i], inst.0, StructId(inst.1))),
        None => true,
    } by {
        if let Some(i) = sym.logic_from(inst.0, 0) {
            lemma_section_kept(
                m,
                freestanding,
                dispatch::table_text(sym, sym.logics@[i], inst.0, StructId(inst.1)),
            );
        }
    }
    assert forall|id: u32| #[trigger]
        n.refs.contains(id) && dispatch::gets_trampoline(sym, id) implies text::has_part(
        out,
        dispatch::tramp_text(sym, sym.the_sig(FuncId(id)), any_concrete(sym)),
    ) by {
        lemma_section_kept(
            m,
            freestanding,
            dispatch::tramp_text(sym, sym.the_sig(FuncId(id)), any_concrete(sym)),
        );
    }
    assert forall|id: u32| #[trigger] n.closures.contains(id) implies match dispatch::closure_env(sym, id) {
        Some(env) => text::has_part(out, dispatch::closure_tramp_text(sym, sym.the_sig(FuncId(id)), env)),
        None => true,
    } by {
        if let Some(env) = dispatch::closure_env(sym, id) {
            lemma_section_kept(
                m,
                freestanding,
                dispatch::closure_tramp_text(sym, sym.the_sig(FuncId(id)), env),
            );
        }
    }
}

} // verus!
