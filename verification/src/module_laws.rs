//! What holds of the text of every module.
use vstd::prelude::*;

use crate::context::{Out, St};
use crate::ctypes;
use crate::definitions;
use crate::drops;
use crate::functions;
use crate::hir::{FuncSig, GlobalInfo, HExpr, HFunc, HType, HirModule, SymTab};
use crate::module;
use crate::operators;
use crate::scan;
use crate::scan::Noted;
use crate::scan_laws;
use crate::text;

verus! {

proof fn lemma_scanned_funcs(sym: SymTab, k: nat, n: Noted, i: int)
    requires
        0 <= i < k <= sym.funcs@.len(),
        module::is_concrete(sym, sym.funcs@[i]),
    ensures
        scan_laws::covers(
            module::scanned_funcs(sym, k, n),
            scan::scanned_func(sym, sym.funcs@[i], module::scanned_funcs(sym, i as nat, n)),
        ),
    decreases k,
{
    if i < k - 1 {
        lemma_scanned_funcs(sym, (k - 1) as nat, n, i);
        scan_laws::law_scan_func_adds(sym, sym.funcs@[k - 1], module::scanned_funcs(sym, (k - 1) as nat, n));
    }
}

/// Every typedef that the type of a parameter or local of a function that is written, or
/// its return type, relies on is among those that are written.
pub proof fn law_function_types_have_typedefs(
    sym: SymTab,
    freestanding: bool,
    i: int,
    part: HType,
)
    requires
        0 <= i < sym.funcs@.len(),
        module::is_concrete(sym, sym.funcs@[i]),
        scan_laws::holds_type(sym.funcs@[i].ret, part) || (exists|j: int|
            0 <= j < sym.funcs@[i].locals@.len() && scan_laws::holds_type(
                (#[trigger] sym.funcs@[i].locals@[j]).ty,
                part,
            )),
    ensures
        scan_laws::wanted_typedef(sym, module::module_notes(sym, freestanding), part),
{
    let f = sym.funcs@[i];
    let n = definitions::types_noted(sym, module::first_notes(freestanding));
    let before = module::scanned_funcs(sym, i as nat, n);
    if scan_laws::holds_type(f.ret, part) {
        scan_laws::law_scan_finds_return_type(sym, f, before, part);
    } else {
        let j = choose|j: int|
            0 <= j < f.locals@.len() && scan_laws::holds_type((#[trigger] f.locals@[j]).ty, part);
        scan_laws::law_scan_finds_local_types(sym, f, before, j, part);
    }
    lemma_scanned_funcs(sym, sym.funcs@.len(), n, i);
}

/// Whatever occurs in the body of a function that is written has its uses noted.
pub proof fn law_function_uses_noted(sym: SymTab, freestanding: bool, i: int, part: HExpr)
    requires
        0 <= i < sym.funcs@.len(),
        module::is_concrete(sym, sym.funcs@[i]),
        scan_laws::stmts_occur(sym.funcs@[i].body.stmts, sym.funcs@[i].body.stmts@.len(), part),
    ensures
        scan_laws::use_noted(sym, module::module_notes(sym, freestanding), part),
{
    let n = definitions::types_noted(sym, module::first_notes(freestanding));
    let before = module::scanned_funcs(sym, i as nat, n);
    let f = sym.funcs@[i];
    scan_laws::law_scan_func_notes_uses(sym, f, before, part);
    lemma_scanned_funcs(sym, sym.funcs@.len(), n, i);
    scan_laws::lemma_use_kept(
        sym,
        scan::scanned_func(sym, f, before),
        module::scanned_funcs(sym, sym.funcs@.len(), n),
        part,
    );
}

proof fn lemma_function_declared(sym: SymTab, n: nat, i: int)
    requires
        0 <= i < n <= sym.funcs@.len(),
        module::is_defined(sym, sym.funcs@[i]),
    ensures
        text::has_part(module::prototypes_text(sym, n), text::line_c(""@, ctypes::signature_c(sym, sym.funcs@[i]) + ";"@)),
    decreases n,
{
    let l = text::line_c(""@, ctypes::signature_c(sym, sym.funcs@[i]) + ";"@);
    let before = module::prototypes_text(sym, (n - 1) as nat);
    if i == n - 1 {
        text::lemma_part_last(before, l);
    } else {
        lemma_function_declared(sym, (n - 1) as nat, i);
        text::lemma_part_kept(before, text::line_c(""@, ctypes::signature_c(sym, sym.funcs@[n - 1]) + ";"@), l);
    }
}

/// `first` stands in the text somewhere before `then`.
pub open spec fn stands_before(whole: Seq<char>, first: Seq<char>, then_text: Seq<char>) -> bool {
    exists|a: Seq<char>, b: Seq<char>, c: Seq<char>| whole == #[trigger] (a + first + b + then_text + c)
}

proof fn lemma_before_definitions(m: HirModule, freestanding: bool, part: Seq<char>)
    requires
        text::has_part(module::declarations_text(m, freestanding), part),
    ensures
        stands_before(module::module_c(m, freestanding), part, module::definitions_of(m.sym)),
{
    let (a, b) = text::lemma_part_split(module::declarations_text(m, freestanding), part);
    let c = if freestanding { ""@ } else { module::socket_helpers() + module::main_text(m.sym) };
    reveal_strlit("");
    assert(module::module_c(m, freestanding) =~= a + part + b + module::definitions_of(m.sym) + c);
}

/// Every function that is defined is declared, with the same signature, before all
/// definitions.
pub proof fn law_functions_declared(m: HirModule, freestanding: bool, i: int)
    requires
        0 <= i < m.sym.funcs@.len(),
        module::is_defined(m.sym, m.sym.funcs@[i]),
    ensures
        stands_before(
            module::module_c(m, freestanding),
            text::line_c(""@, ctypes::signature_c(m.sym, m.sym.funcs@[i]) + ";"@),
            module::definitions_of(m.sym),
        ),
{
    let l = text::line_c(""@, ctypes::signature_c(m.sym, m.sym.funcs@[i]) + ";"@);
    lemma_function_declared(m.sym, m.sym.funcs@.len(), i);
    module::lemma_in_declarations(m, freestanding, l);
    lemma_before_definitions(m, freestanding, l);
}

/// The drop glue stands before all function definitions.
pub proof fn law_glue_before_functions(m: HirModule, freestanding: bool)
    ensures
        stands_before(
            module::module_c(m, freestanding),
            drops::drop_glue_c(m.sym, drops::owning_names(m.sym)),
            module::definitions_of(m.sym),
        ),
{
    let glue = drops::drop_glue_c(m.sym, drops::owning_names(m.sym));
    let from: int = 0;
    assert(glue.subrange(from, from + glue.len()) =~= glue);
    assert(text::has_part(glue, glue));
    module::lemma_in_declarations(m, freestanding, glue);
    lemma_before_definitions(m, freestanding, glue);
}

/// The declaration of a foreign function.
pub open spec fn foreign_line(sym: SymTab, sig: FuncSig) -> Seq<char> {
    text::line_c(
        ""@,
        "extern "@ + ctypes::ret_c(sym, sig.ret) + " "@ + sig.c_name@ + "("@ + module::foreign_list(sym, sig)
            + ");"@,
    )
}

proof fn lemma_foreign_declared(sym: SymTab, n: nat, i: int)
    requires
        0 <= i < n <= sym.sigs@.len(),
        sym.sigs@[i].is_extern,
    ensures
        text::has_part(module::foreign_text(sym, n), foreign_line(sym, sym.sigs@[i])),
    decreases n,
{
    let before = module::foreign_text(sym, (n - 1) as nat);
    let last = foreign_line(sym, sym.sigs@[n - 1]);
    if i == n - 1 {
        text::lemma_part_last(before, last);
    } else {
        lemma_foreign_declared(sym, (n - 1) as nat, i);
        text::lemma_part_kept(before, last, foreign_line(sym, sym.sigs@[i]));
    }
}

/// Every foreign function is declared, under its C name, before all definitions.
pub proof fn law_foreign_functions_declared(m: HirModule, freestanding: bool, i: int)
    requires
        0 <= i < m.sym.sigs@.len(),
        m.sym.sigs@[i].is_extern,
    ensures
        stands_before(
            module::module_c(m, freestanding),
            foreign_line(m.sym, m.sym.sigs@[i]),
            module::definitions_of(m.sym),
        ),
{
    let l = foreign_line(m.sym, m.sym.sigs@[i]);
    lemma_foreign_declared(m.sym, m.sym.sigs@.len(), i);
    module::lemma_in_declarations(m, freestanding, l);
    lemma_before_definitions(m, freestanding, l);
}

proof fn lemma_block_pasted(blocks: Seq<String>, n: nat, i: int)
    requires
        0 <= i < n <= blocks.len(),
    ensures
        text::has_part(module::blocks_text(blocks, n), blocks[i]@),
    decreases n,
{
    let before = module::blocks_text(blocks, (n - 1) as nat);
    if i == n - 1 {
        text::lemma_part_last(before, blocks[i]@);
    } else {
        lemma_block_pasted(blocks, (n - 1) as nat, i);
        text::lemma_part_kept(before, blocks[n - 1]@, blocks[i]@);
    }
    text::lemma_part_kept(before + blocks[n - 1]@, "\n"@, blocks[i]@);
}

/// Every raw C block stands in the output as it was given, before all definitions.
pub proof fn law_blocks_pasted(m: HirModule, freestanding: bool, i: int)
    requires
        0 <= i < m.cblocks@.len(),
    ensures
        stands_before(module::module_c(m, freestanding), m.cblocks@[i]@, module::definitions_of(m.sym)),
{
    lemma_block_pasted(m.cblocks@, m.cblocks@.len(), i);
    module::lemma_in_declarations(m, freestanding, m.cblocks@[i]@);
    lemma_before_definitions(m, freestanding, m.cblocks@[i]@);
}

/// The definition of a global.
pub open spec fn global_line(sym: SymTab, g: GlobalInfo) -> Seq<char> {
    text::line_c(
        ""@,
        "static "@ + ctypes::ty_c(sym, g.ty) + " "@ + g.c_name@ + " = "@ + operators::global_init_text(g.init)
            + ";"@,
    )
}

proof fn lemma_global_defined(sym: SymTab, n: nat, i: int)
    requires
        0 <= i < n <= sym.globals@.len(),
    ensures
        text::has_part(module::globals_text(sym, n), global_line(sym, sym.globals@[i])),
    decreases n,
{
    let before = module::globals_text(sym, (n - 1) as nat);
    let last = global_line(sym, sym.globals@[n - 1]);
    if i == n - 1 {
        text::lemma_part_last(before, last);
    } else {
        lemma_global_defined(sym, (n - 1) as nat, i);
        text::lemma_part_kept(before, last, global_line(sym, sym.globals@[i]));
    }
}

/// Every global is defined, file-local, before all functions.
pub proof fn law_globals_defined(m: HirModule, freestanding: bool, i: int)
    requires
        0 <= i < m.sym.globals@.len(),
    ensures
        stands_before(
            module::module_c(m, freestanding),
            global_line(m.sym, m.sym.globals@[i]),
            module::definitions_of(m.sym),
        ),
{
    let l = global_line(m.sym, m.sym.globals@[i]);
    lemma_global_defined(m.sym, m.sym.globals@.len(), i);
    module::lemma_in_declarations(m, freestanding, l);
    lemma_before_definitions(m, freestanding, l);
}

/// Only functions that no other translation unit may call have internal linkage: the
/// entry point, exported and foreign functions do not.
pub proof fn law_private_functions_are_static(sym: SymTab, f: HFunc)
    ensures
        ({
            let sig = sym.the_sig(f.id);
            let rest = ctypes::ret_c(sym, f.ret) + " "@ + ctypes::defined_c(sig) + "("@ + (if f.params@.len() == 0 {
                "void"@
            } else {
                text::joined(ctypes::param_decls(sym, f, f.params@.len()), ", "@)
            }) + ")"@;
            ctypes::signature_c(sym, f) == (if sig.is_pub || sig.is_extern || ctypes::is_main(sig) {
                rest
            } else {
                "static "@ + rest
            })
        }),
{
    let sig = sym.the_sig(f.id);
    reveal_strlit("");
    let params = if f.params@.len() == 0 {
        "void"@
    } else {
        text::joined(ctypes::param_decls(sym, f, f.params@.len()), ", "@)
    };
    let rest = ctypes::ret_c(sym, f.ret) + " "@ + ctypes::defined_c(sig) + "("@ + params + ")"@;
    assert(""@ + ctypes::ret_c(sym, f.ret) + " "@ + ctypes::defined_c(sig) + "("@ + params + ")"@ =~= rest);
    assert("static "@ + ctypes::ret_c(sym, f.ret) + " "@ + ctypes::defined_c(sig) + "("@ + params + ")"@ =~= "static "@ + rest);
}

/// Inline functions have no C function: neither a declaration nor a definition.
pub proof fn law_inline_functions_have_no_text(
    sym: SymTab,
    d: nat,
    owns: Set<Seq<char>>,
    st: St,
    i: int,
)
    requires
        0 <= i < sym.funcs@.len(),
        sym.the_sig(sym.funcs@[i].id).is_inline,
    ensures
        functions::func_c(d, sym, owns, st, sym.funcs@[i]) == (Out { text: ""@, st }),
        module::prototypes_text(sym, (i + 1) as nat) == module::prototypes_text(sym, i as nat),
{
}

/// A freestanding module ends with its functions; a hosted program has the socket helpers
/// and the C entry point after the same functions.
pub proof fn law_modes_differ_at_the_end(m: HirModule)
    ensures
        module::module_c(m, true) == module::declarations_text(m, true) + module::definitions_of(m.sym),
        module::module_c(m, false) == module::declarations_text(m, false) + module::definitions_of(m.sym)
            + module::socket_helpers() + module::main_text(m.sym),
{
}

/// The socket helpers do not depend on the module: every two programs hold the same text,
/// behind their own functions and before their own entry point.
pub proof fn law_socket_helpers_are_one_text(a: HirModule, b: HirModule)
    ensures
        exists|k: Seq<char>|
            module::module_c(a, false) == #[trigger] (module::declarations_text(a, false) + module::definitions_of(a.sym) + k
                + module::main_text(a.sym)) && module::module_c(b, false) == module::declarations_text(b, false)
                + module::definitions_of(b.sym) + k + module::main_text(b.sym),
        module::module_c(a, false) == module::declarations_text(a, false) + module::definitions_of(a.sym)
            + module::socket_helpers() + module::main_text(a.sym),
        module::module_c(b, false) == module::declarations_text(b, false) + module::definitions_of(b.sym)
            + module::socket_helpers() + module::main_text(b.sym),
{
    assert(module::module_c(a, false) == module::declarations_text(a, false) + module::definitions_of(a.sym)
        + module::socket_helpers() + module::main_text(a.sym));
}

} // verus!
