//! Method tables of trait objects, and the trampolines behind function values.
use vstd::prelude::*;

use crate::ctypes;
use crate::ctypes::{c_decl, c_ret_type, c_type, callee_name};
use crate::hir::{FuncId, FuncSig, HType, LogicInfo, StructId, SymTab};
use crate::scan;
use crate::scan::CallableSig;
use crate::sorted;
use crate::sorted::SortedMap;
use crate::text;
use crate::text::{
    c_ident, cat2, cat3, cat4, cat5, cat6, cat7, dec_u64, deeper, join, line, no_parts, own,
    push_part, str_eq,
};

verus! {

/// The names of the functions in a logic block.
pub open spec fn method_names(sym: SymTab, l: LogicInfo) -> Set<Seq<char>> {
    Set::new(
        |n: Seq<char>|
            exists|i: int|
                0 <= i < l.funcs@.len() && sym.the_sig(#[trigger] l.funcs@[i]).name@ == n,
    )
}

/// The functions of the logic block have signatures.
pub open spec fn methods_ok(sym: SymTab, l: LogicInfo) -> bool {
    forall|i: int| 0 <= i < l.funcs@.len() ==> sym.has_sig(#[trigger] l.funcs@[i])
}

fn names_of(sym: &SymTab, l: &LogicInfo) -> (r: SortedMap<String, ()>)
    requires
        methods_ok(*sym, *l),
    ensures
        r.wf(),
        r.dom() == method_names(*sym, *l),
{
    let mut names: SortedMap<String, ()> = SortedMap::new();
    let total: usize = l.funcs.len();
    let mut i: usize = 0;
    while i < total
        invariant
            i <= total,
            total == l.funcs@.len(),
            methods_ok(*sym, *l),
            names.wf(),
            forall|n: Seq<char>| #[trigger]
                names.dom().contains(n) == (exists|j: int|
                    0 <= j < i && sym.the_sig(#[trigger] l.funcs@[j]).name@ == n),
        decreases total - i,
    {
        let ghost before: Set<Seq<char>> = names.dom();
        let ghost added: Seq<char> = sym.the_sig(l.funcs@[i as int]).name@;
        assert(sym.has_sig(l.funcs@[i as int]));
        names.insert(own(&sym.func_sig(l.funcs[i]).name), ());
        assert forall|n: Seq<char>| #[trigger] names.dom().contains(n) == (exists|j: int|
            0 <= j < i + 1 && sym.the_sig(#[trigger] l.funcs@[j]).name@ == n) by {
            if n == added {
                assert(sym.the_sig(l.funcs@[i as int]).name@ == n);
            } else if before.contains(n) {
                let j = choose|j: int|
                    0 <= j < i && sym.the_sig(#[trigger] l.funcs@[j]).name@ == n;
                assert(sym.the_sig(l.funcs@[j]).name@ == n);
            }
        }
        i += 1;
    }
    assert(names.dom() =~= method_names(*sym, *l));
    names
}

/// The first function of the logic block called `name`, from `from` on.
pub open spec fn method_from(sym: SymTab, l: LogicInfo, name: Seq<char>, from: nat) -> Option<
    FuncSig,
>
    decreases l.funcs@.len() - from,
{
    if from >= l.funcs@.len() {
        None
    } else if sym.the_sig(l.funcs@[from as int]).name@ == name {
        Some(sym.the_sig(l.funcs@[from as int]))
    } else {
        method_from(sym, l, name, from + 1)
    }
}

fn find_method<'a>(sym: &'a SymTab, l: &LogicInfo, name: &str) -> (r: Option<&'a FuncSig>)
    requires
        methods_ok(*sym, *l),
    ensures
        match r {
            Some(s) => method_from(*sym, *l, name@, 0) == Some(*s),
            None => method_from(*sym, *l, name@, 0) is None,
        },
{
    let mut i: usize = 0;
    while i < l.funcs.len()
        invariant
            i <= l.funcs@.len(),
            methods_ok(*sym, *l),
            method_from(*sym, *l, name@, 0) == method_from(*sym, *l, name@, i as nat),
        decreases l.funcs@.len() - i,
    {
        assert(sym.has_sig(l.funcs@[i as int]));
        let s: &FuncSig = sym.func_sig(l.funcs[i]);
        if str_eq(&s.name, name) {
            return Some(s);
        }
        i += 1;
    }
    None
}

/// The shape of a method in its table: the receiver is an untyped pointer.
pub open spec fn slot_params(sym: SymTab, tys: Seq<HType>, n: nat) -> Seq<Seq<char>> {
    Seq::new(n, |i: int| if i == 0 { "void*"@ } else { ctypes::ty_c(sym, tys[i]) })
}

/// The slot of a method in a method table.
pub open spec fn slot_text(sym: SymTab, ind: Seq<char>, name: Seq<char>, sig: FuncSig) -> Seq<char> {
    text::line_c(
        ind,
        ctypes::ret_c(sym, sig.ret) + " (*"@ + text::ident(name) + ")("@ + (if sig.param_tys@.len() == 0 {
            "void"@
        } else {
            text::joined(slot_params(sym, sig.param_tys@, sig.param_tys@.len()), ", "@)
        }) + ");"@,
    )
}

/// The types in the shape of the method can be spelled.
pub open spec fn slot_ok(sym: SymTab, sig: FuncSig) -> bool {
    &&& ctypes::ty_ok(sym, sig.ret)
    &&& forall|i: int| 0 < i < sig.param_tys@.len() ==> ctypes::ty_ok(sym, #[trigger] sig.param_tys@[i])
}

fn slot(sym: &SymTab, ind: &str, name: &str, sig: &FuncSig) -> (r: String)
    requires
        slot_ok(*sym, *sig),
    ensures
        r@ == slot_text(*sym, ind@, name@, *sig),
{
    let params: String = if sig.param_tys.len() == 0 {
        own("void")
    } else {
        let mut parts: Vec<String> = no_parts();
        let mut i: usize = 0;
        assert(slot_params(*sym, sig.param_tys@, 0) =~= Seq::<Seq<char>>::empty());
        while i < sig.param_tys.len()
            invariant
                i <= sig.param_tys@.len(),
                slot_ok(*sym, *sig),
                text::views(parts@) == slot_params(*sym, sig.param_tys@, i as nat),
            decreases sig.param_tys@.len() - i,
        {
            let p: String = if i == 0 {
                own("void*")
            } else {
                assert(ctypes::ty_ok(*sym, sig.param_tys@[i as int]));
                c_type(sym, &sig.param_tys[i])
            };
            assert(slot_params(*sym, sig.param_tys@, (i + 1) as nat) =~= slot_params(
                *sym,
                sig.param_tys@,
                i as nat,
            ).push(p@));
            push_part(&mut parts, p);
            i += 1;
        }
        join(&parts, ", ")
    };
    line(ind, &cat6(&c_ret_type(sym, &sig.ret), " (*", &c_ident(name), ")(", &params, ");"))
}

/// The slots for the first `n` method names.
pub open spec fn slots_text(
    sym: SymTab,
    l: LogicInfo,
    ind: Seq<char>,
    names: Seq<Seq<char>>,
    n: nat,
) -> Seq<char>
    decreases n,
{
    if n == 0 || n > names.len() {
        ""@
    } else {
        let before = slots_text(sym, l, ind, names, (n - 1) as nat);
        match method_from(sym, l, names[n - 1], 0) {
            Some(sig) => before + slot_text(sym, ind, names[n - 1], sig),
            None => before,
        }
    }
}

/// The table type and the fat pointer type of a trait.
pub open spec fn trait_text(sym: SymTab, l: LogicInfo, name: Seq<char>) -> Seq<char> {
    let t = text::ident(name);
    let names = sorted::ascending::<String>(method_names(sym, l));
    text::line_c(""@, "typedef struct "@ + t + "_vtbl {"@) + slots_text(
        sym,
        l,
        text::deeper_c(""@),
        names,
        names.len(),
    ) + text::line_c(""@, "} "@ + t + "_vtbl;"@) + text::line_c(
        ""@,
        "typedef struct { void* data; const "@ + t + "_vtbl* vtbl; } Dyn_"@ + t + ";"@,
    )
}

/// The table type of the logic block can be written.
pub open spec fn trait_ok(sym: SymTab, l: LogicInfo) -> bool {
    &&& methods_ok(sym, l)
    &&& forall|name: Seq<char>|
        match #[trigger] method_from(sym, l, name, 0) {
            Some(sig) => slot_ok(sym, sig),
            None => true,
        }
}

fn trait_types(sym: &SymTab, l: &LogicInfo, name: &str) -> (r: String)
    requires
        trait_ok(*sym, *l),
    ensures
        r@ == trait_text(*sym, *l, name@),
{
    let t: String = c_ident(name);
    let ind: String = deeper("");
    let names: SortedMap<String, ()> = names_of(sym, l);
    proof {
        names.lemma_listing();
    }
    let ghost list: Seq<Seq<char>> = names.keys();
    let mut slots: String = own("");
    let mut i: usize = 0;
    while i < names.len()
        invariant
            i <= list.len(),
            list == names.keys(),
            ind@ == text::deeper_c(""@),
            trait_ok(*sym, *l),
            slots@ == slots_text(*sym, *l, ind@, list, i as nat),
        decreases list.len() - i,
    {
        let n: &String = names.key(i);
        match find_method(sym, l, n) {
            Some(sig) => {
                assert(method_from(*sym, *l, n@, 0) == Some(*sig));
                slots.append(&slot(sym, &ind, n, sig));
            },
            None => {},
        }
        i += 1;
    }
    cat4(
        &line("", &cat3("typedef struct ", &t, "_vtbl {")),
        &slots,
        &line("", &cat3("} ", &t, "_vtbl;")),
        &line(
            "",
            &cat5("typedef struct { void* data; const ", &t, "_vtbl* vtbl; } Dyn_", &t, ";"),
        ),
    )
}

/// The types for the first `n` traits; a trait without logic block has none.
pub open spec fn traits_text(sym: SymTab, names: Seq<Seq<char>>, n: nat) -> Seq<char>
    decreases n,
{
    if n == 0 || n > names.len() {
        ""@
    } else {
        let before = traits_text(sym, names, (n - 1) as nat);
        match sym.logic_from(names[n - 1], 0) {
            Some(i) => before + trait_text(sym, sym.logics@[i], names[n - 1]),
            None => before,
        }
    }
}

/// The types of every trait object, in ascending order.
pub open spec fn dyn_typedefs(sym: SymTab, traits: Set<Seq<char>>) -> Seq<char> {
    let names = sorted::ascending::<String>(traits);
    traits_text(sym, names, names.len())
}

/// The table types of the traits can be written.
pub open spec fn traits_ok(sym: SymTab, traits: Set<Seq<char>>) -> bool {
    forall|name: Seq<char>|
        traits.contains(name) ==> match #[trigger] sym.logic_from(name, 0) {
            Some(i) => trait_ok(sym, sym.logics@[i]),
            None => true,
        }
}

proof fn lemma_trait_there(sym: SymTab, names: Seq<Seq<char>>, n: nat, i: int, at: int)
    requires
        0 <= i < n <= names.len(),
        sym.logic_from(names[i], 0) == Some(at),
    ensures
        text::has_part(traits_text(sym, names, n), trait_text(sym, sym.logics@[at], names[i])),
    decreases n,
{
    let part = trait_text(sym, sym.logics@[at], names[i]);
    let before = traits_text(sym, names, (n - 1) as nat);
    if i == n - 1 {
        text::lemma_part_last(before, part);
    } else {
        lemma_trait_there(sym, names, (n - 1) as nat, i, at);
        match sym.logic_from(names[n - 1], 0) {
            Some(k) => text::lemma_part_kept(before, trait_text(sym, sym.logics@[k], names[n - 1]), part),
            None => {},
        }
    }
}

/// The text holds the types of every trait object whose trait has a logic block.
pub open spec fn traits_there(sym: SymTab, traits: Set<Seq<char>>, out: Seq<char>) -> bool {
    forall|name: Seq<char>| #[trigger]
        traits.contains(name) ==> match sym.logic_from(name, 0) {
            Some(i) => text::has_part(out, trait_text(sym, sym.logics@[i], name)),
            None => true,
        }
}

/// Writes the types of every trait object.
pub fn emit_dyn_typedefs(sym: &SymTab, traits: &SortedMap<String, ()>) -> (r: String)
    requires
        traits.wf(),
        traits_ok(*sym, traits.dom()),
    ensures
        r@ == dyn_typedefs(*sym, traits.dom()),
        traits_there(*sym, traits.dom(), r@),
{
    proof {
        traits.lemma_listing();
    }
    let ghost list: Seq<Seq<char>> = traits.keys();
    let mut out: String = own("");
    let mut i: usize = 0;
    while i < traits.len()
        invariant
            i <= list.len(),
            list == traits.keys(),
            traits_ok(*sym, traits.dom()),
            out@ == traits_text(*sym, list, i as nat),
        decreases list.len() - i,
    {
        let name: &String = traits.key(i);
        assert(traits.dom().contains(traits.keys()[i as int]));
        match sym.logic_by_name(name) {
            Some(l) => {
                out.append(&trait_types(sym, l, name));
            },
            None => {},
        }
        i += 1;
    }
    proof {
        assert forall|name: Seq<char>| #[trigger] traits.dom().contains(name) implies match sym.logic_from(
            name,
            0,
        ) {
            Some(k) => text::has_part(out@, trait_text(*sym, sym.logics@[k], name)),
            None => true,
        } by {
            let p = choose|p: int| 0 <= p < list.len() && list[p] == name;
            if let Some(k) = sym.logic_from(name, 0) {
                lemma_trait_there(*sym, list, list.len(), p, k);
            }
        }
    }
    out
}

/// The function is a method of the struct: its first parameter borrows one.
pub open spec fn is_method_of(sig: FuncSig, id: StructId) -> bool {
    sig.param_tys@.len() > 0 && match sig.param_tys@[0] {
        HType::Ref { inner, .. } => match *inner {
            HType::Struct(s) => s == id,
            _ => false,
        },
        _ => false,
    }
}

fn belongs_to(sig: &FuncSig, id: StructId) -> (r: bool)
    ensures
        r == is_method_of(*sig, id),
{
    if sig.param_tys.len() == 0 {
        return false;
    }
    match &sig.param_tys[0] {
        HType::Ref { inner, .. } => match &**inner {
            HType::Struct(s) => s.0 == id.0,
            _ => false,
        },
        _ => false,
    }
}

/// The first method of the struct called `name` in the logic block, from `from` on.
pub open spec fn impl_from(
    sym: SymTab,
    l: LogicInfo,
    name: Seq<char>,
    id: StructId,
    from: nat,
) -> Option<FuncSig>
    decreases l.funcs@.len() - from,
{
    if from >= l.funcs@.len() {
        None
    } else {
        let sig = sym.the_sig(l.funcs@[from as int]);
        if sig.name@ == name && is_method_of(sig, id) {
            Some(sig)
        } else {
            impl_from(sym, l, name, id, from + 1)
        }
    }
}

fn find_impl<'a>(sym: &'a SymTab, l: &LogicInfo, name: &str, id: StructId) -> (r: Option<
    &'a FuncSig,
>)
    requires
        methods_ok(*sym, *l),
    ensures
        match r {
            Some(s) => impl_from(*sym, *l, name@, id, 0) == Some(*s),
            None => impl_from(*sym, *l, name@, id, 0) is None,
        },
{
    let mut i: usize = 0;
    while i < l.funcs.len()
        invariant
            i <= l.funcs@.len(),
            methods_ok(*sym, *l),
            impl_from(*sym, *l, name@, id, 0) == impl_from(*sym, *l, name@, id, i as nat),
        decreases l.funcs@.len() - i,
    {
        assert(sym.has_sig(l.funcs@[i as int]));
        let s: &FuncSig = sym.func_sig(l.funcs[i]);
        if str_eq(&s.name, name) && belongs_to(s, id) {
            return Some(s);
        }
        i += 1;
    }
    None
}

/// The entries of a struct's method table for the first `n` method names.
pub open spec fn entries_text(
    sym: SymTab,
    l: LogicInfo,
    id: StructId,
    ind: Seq<char>,
    names: Seq<Seq<char>>,
    n: nat,
) -> Seq<char>
    decreases n,
{
    if n == 0 || n > names.len() {
        ""@
    } else {
        let before = entries_text(sym, l, id, ind, names, (n - 1) as nat);
        match impl_from(sym, l, names[n - 1], id, 0) {
            Some(sig) => before + text::line_c(
                ind,
                "."@ + text::ident(names[n - 1]) + " = (void*)"@ + sig.c_name@ + ","@,
            ),
            None => before,
        }
    }
}

/// The method table of a struct for a trait.
pub open spec fn table_text(sym: SymTab, l: LogicInfo, name: Seq<char>, id: StructId) -> Seq<char> {
    let t = text::ident(name);
    let names = sorted::ascending::<String>(method_names(sym, l));
    text::line_c(
        ""@,
        "static const "@ + t + "_vtbl "@ + t + "_vtbl_for_"@ + text::ident(sym.the_struct(id).name@)
            + " = {"@,
    ) + entries_text(sym, l, id, text::deeper_c(""@), names, names.len()) + text::line_c(""@, "};"@)
}

fn table(sym: &SymTab, l: &LogicInfo, name: &str, id: StructId) -> (r: String)
    requires
        methods_ok(*sym, *l),
        sym.has_struct(id),
    ensures
        r@ == table_text(*sym, *l, name@, id),
{
    let t: String = c_ident(name);
    let ind: String = deeper("");
    let names: SortedMap<String, ()> = names_of(sym, l);
    proof {
        names.lemma_listing();
    }
    let ghost list: Seq<Seq<char>> = names.keys();
    let mut entries: String = own("");
    let mut i: usize = 0;
    while i < names.len()
        invariant
            i <= list.len(),
            list == names.keys(),
            methods_ok(*sym, *l),
            ind@ == text::deeper_c(""@),
            entries@ == entries_text(*sym, *l, id, ind@, list, i as nat),
        decreases list.len() - i,
    {
        let n: &String = names.key(i);
        match find_impl(sym, l, n, id) {
            Some(sig) => {
                let text: String = cat5(".", &c_ident(n), " = (void*)", &sig.c_name, ",");
                entries.append(&line(&ind, &text));
            },
            None => {},
        }
        i += 1;
    }
    let head: String = cat7(
        "static const ",
        &t,
        "_vtbl ",
        &t,
        "_vtbl_for_",
        &c_ident(&sym.struct_info(id).name),
        " = {",
    );
    cat3(&line("", &head), &entries, &line("", "};"))
}

/// The tables for the first `n` pairs of trait and struct.
pub open spec fn tables_text(sym: SymTab, insts: Seq<(Seq<char>, u32)>, n: nat) -> Seq<char>
    decreases n,
{
    if n == 0 || n > insts.len() {
        ""@
    } else {
        let before = tables_text(sym, insts, (n - 1) as nat);
        let (name, id) = insts[n - 1];
        match sym.logic_from(name, 0) {
            Some(i) => before + table_text(sym, sym.logics@[i], name, StructId(id)),
            None => before,
        }
    }
}

/// Every method table, in ascending order.
pub open spec fn vtables(sym: SymTab, insts: Set<(Seq<char>, u32)>) -> Seq<char> {
    let list = sorted::ascending::<(String, u32)>(insts);
    tables_text(sym, list, list.len())
}

/// The method tables can be written.
pub open spec fn insts_ok(sym: SymTab, insts: Set<(Seq<char>, u32)>) -> bool {
    forall|inst: (Seq<char>, u32)| #[trigger]
        insts.contains(inst) ==> sym.has_struct(StructId(inst.1)) && match sym.logic_from(
            inst.0,
            0,
        ) {
            Some(i) => methods_ok(sym, sym.logics@[i]),
            None => true,
        }
}

proof fn lemma_table_there(
    sym: SymTab,
    insts: Seq<(Seq<char>, u32)>,
    n: nat,
    i: int,
    at: int,
)
    requires
        0 <= i < n <= insts.len(),
        sym.logic_from(insts[i].0, 0) == Some(at),
    ensures
        text::has_part(
            tables_text(sym, insts, n),
            table_text(sym, sym.logics@[at], insts[i].0, StructId(insts[i].1)),
        ),
    decreases n,
{
    let part = table_text(sym, sym.logics@[at], insts[i].0, StructId(insts[i].1));
    let before = tables_text(sym, insts, (n - 1) as nat);
    if i == n - 1 {
        text::lemma_part_last(before, part);
    } else {
        lemma_table_there(sym, insts, (n - 1) as nat, i, at);
        let (name, id) = insts[n - 1];
        match sym.logic_from(name, 0) {
            Some(k) => text::lemma_part_kept(
                before,
                table_text(sym, sym.logics@[k], name, StructId(id)),
                part,
            ),
            None => {},
        }
    }
}

/// The text holds every method table whose trait has a logic block.
pub open spec fn tables_there(sym: SymTab, insts: Set<(Seq<char>, u32)>, out: Seq<char>) -> bool {
    forall|inst: (Seq<char>, u32)| #[trigger]
        insts.contains(inst) ==> match sym.logic_from(inst.0, 0) {
            Some(i) => text::has_part(
                out,
                table_text(sym, sym.logics@[i], inst.0, StructId(inst.1)),
            ),
            None => true,
        }
}

/// Writes every method table.
pub fn emit_dyn_vtable_instances(sym: &SymTab, insts: &SortedMap<(String, u32), ()>) -> (r: String)
    requires
        insts.wf(),
        insts_ok(*sym, insts.dom()),
    ensures
        r@ == vtables(*sym, insts.dom()),
        tables_there(*sym, insts.dom(), r@),
{
    proof {
        insts.lemma_listing();
    }
    let ghost list: Seq<(Seq<char>, u32)> = insts.keys();
    let mut out: String = own("");
    let mut i: usize = 0;
    while i < insts.len()
        invariant
            i <= list.len(),
            list == insts.keys(),
            insts_ok(*sym, insts.dom()),
            out@ == tables_text(*sym, list, i as nat),
        decreases list.len() - i,
    {
        let inst: &(String, u32) = insts.key(i);
        assert(insts.dom().contains(insts.keys()[i as int]));
        match sym.logic_by_name(&inst.0) {
            Some(l) => {
                out.append(&table(sym, l, &inst.0, StructId(inst.1)));
            },
            None => {},
        }
        i += 1;
    }
    proof {
        assert forall|inst: (Seq<char>, u32)| #[trigger]
            insts.dom().contains(inst) implies match sym.logic_from(inst.0, 0) {
            Some(k) => text::has_part(
                out@,
                table_text(*sym, sym.logics@[k], inst.0, StructId(inst.1)),
            ),
            None => true,
        } by {
            let p = choose|p: int| 0 <= p < list.len() && list[p] == inst;
            if let Some(k) = sym.logic_from(inst.0, 0) {
                lemma_table_there(*sym, list, list.len(), p, k);
            }
        }
    }
    out
}

/// The parameters of a raw function pointer: the environment, then the first `n` types.
pub open spec fn raw_params(sym: SymTab, tys: Seq<HType>, n: nat) -> Seq<Seq<char>>
    decreases n,
{
    if n == 0 {
        seq!["void*"@]
    } else {
        raw_params(sym, tys, (n - 1) as nat).push(ctypes::ty_c(sym, tys[n - 1]))
    }
}

/// The types of a function value: the raw pointer, and the pointer with its environment.
pub open spec fn callable_text(sym: SymTab, key: Seq<char>, sig: (HType, Vec<HType>)) -> Seq<char> {
    text::line_c(
        ""@,
        "typedef "@ + ctypes::ret_c(sym, sig.0) + " (*fn_"@ + key + "_raw)("@ + text::joined(
            raw_params(sym, sig.1@, sig.1@.len()),
            ", "@,
        ) + ");"@,
    ) + text::line_c(""@, "typedef struct { fn_"@ + key + "_raw code; void* env; } Callable_"@ + key + ";"@)
}

/// The types of the signature can be spelled.
pub open spec fn callable_ok(sym: SymTab, sig: (HType, Vec<HType>)) -> bool {
    &&& ctypes::ty_ok(sym, sig.0)
    &&& forall|i: int| 0 <= i < sig.1@.len() ==> ctypes::ty_ok(sym, #[trigger] sig.1@[i])
}

fn callable(sym: &SymTab, key: &str, sig: &CallableSig) -> (r: String)
    requires
        callable_ok(*sym, (*sig.ret, *sig.params)),
    ensures
        r@ == callable_text(*sym, key@, (*sig.ret, *sig.params)),
{
    let mut parts: Vec<String> = no_parts();
    push_part(&mut parts, own("void*"));
    let mut i: usize = 0;
    assert(Seq::<Seq<char>>::empty().push("void*"@) =~= raw_params(*sym, sig.params@, 0));
    while i < sig.params.len()
        invariant
            i <= sig.params@.len(),
            callable_ok(*sym, (*sig.ret, *sig.params)),
            text::views(parts@) == raw_params(*sym, sig.params@, i as nat),
        decreases sig.params@.len() - i,
    {
        assert(ctypes::ty_ok(*sym, (*sig.ret, *sig.params).1@[i as int]));
        push_part(&mut parts, c_type(sym, &sig.params[i]));
        i += 1;
    }
    let raw: String = cat7(
        "typedef ",
        &c_ret_type(sym, sig.ret),
        " (*fn_",
        key,
        "_raw)(",
        &join(&parts, ", "),
        ");",
    );
    let fat: String = cat5(
        "typedef struct { fn_",
        key,
        "_raw code; void* env; } Callable_",
        key,
        ";",
    );
    cat2(&line("", &raw), &line("", &fat))
}

/// The types for the first `n` signature keys.
pub open spec fn callables_text(
    sym: SymTab,
    sigs: Map<Seq<char>, (HType, Vec<HType>)>,
    keys: Seq<Seq<char>>,
    n: nat,
) -> Seq<char>
    decreases n,
{
    if n == 0 || n > keys.len() {
        ""@
    } else {
        callables_text(sym, sigs, keys, (n - 1) as nat) + callable_text(
            sym,
            keys[n - 1],
            sigs[keys[n - 1]],
        )
    }
}

/// The types of every function value, in ascending order of their keys.
pub open spec fn callable_typedefs(
    sym: SymTab,
    sigs: Map<Seq<char>, (HType, Vec<HType>)>,
) -> Seq<char> {
    let keys = sorted::ascending::<String>(sigs.dom());
    callables_text(sym, sigs, keys, keys.len())
}

/// The types of every function value can be written.
pub open spec fn callables_ok(sym: SymTab, sigs: Map<Seq<char>, (HType, Vec<HType>)>) -> bool {
    forall|k: Seq<char>| #[trigger] sigs.dom().contains(k) ==> callable_ok(sym, sigs[k])
}

proof fn lemma_callable_there(
    sym: SymTab,
    sigs: Map<Seq<char>, (HType, Vec<HType>)>,
    keys: Seq<Seq<char>>,
    n: nat,
    i: int,
)
    requires
        0 <= i < n <= keys.len(),
    ensures
        text::has_part(callables_text(sym, sigs, keys, n), callable_text(sym, keys[i], sigs[keys[i]])),
    decreases n,
{
    let part = callable_text(sym, keys[i], sigs[keys[i]]);
    let before = callables_text(sym, sigs, keys, (n - 1) as nat);
    if i == n - 1 {
        text::lemma_part_last(before, part);
    } else {
        lemma_callable_there(sym, sigs, keys, (n - 1) as nat, i);
        text::lemma_part_kept(before, callable_text(sym, keys[n - 1], sigs[keys[n - 1]]), part);
    }
}

/// The text holds the types of every function value.
pub open spec fn callables_there(
    sym: SymTab,
    sigs: Map<Seq<char>, (HType, Vec<HType>)>,
    out: Seq<char>,
) -> bool {
    forall|k: Seq<char>| #[trigger]
        sigs.dom().contains(k) ==> text::has_part(out, callable_text(sym, k, sigs[k]))
}

/// Writes the types of every function value.
pub fn emit_callable_typedefs(sym: &SymTab, sigs: &SortedMap<String, CallableSig>) -> (r: String)
    requires
        sigs.wf(),
        callables_ok(*sym, scan::sigs_of(sigs.map())),
    ensures
        r@ == callable_typedefs(*sym, scan::sigs_of(sigs.map())),
        callables_there(*sym, scan::sigs_of(sigs.map()), r@),
{
    let ghost all: Map<Seq<char>, (HType, Vec<HType>)> = scan::sigs_of(sigs.map());
    proof {
        sigs.lemma_listing();
        assert(all.dom() =~= sigs.dom());
    }
    let ghost list: Seq<Seq<char>> = sigs.keys();
    let mut out: String = own("");
    let mut i: usize = 0;
    while i < sigs.len()
        invariant
            i <= list.len(),
            list == sigs.keys(),
            sigs.wf(),
            all == scan::sigs_of(sigs.map()),
            all.dom() == sigs.dom(),
            callables_ok(*sym, all),
            out@ == callables_text(*sym, all, list, i as nat),
        decreases list.len() - i,
    {
        proof {
            sigs.lemma_listing();
            assert(all.dom().contains(sigs.keys()[i as int]));
        }
        out.append(&callable(sym, sigs.key(i), sigs.value(i)));
        i += 1;
    }
    proof {
        sigs.lemma_listing();
        assert forall|k: Seq<char>| #[trigger] all.dom().contains(k) implies text::has_part(
            out@,
            callable_text(*sym, k, all[k]),
        ) by {
            let p = choose|p: int| 0 <= p < list.len() && list[p] == k;
            lemma_callable_there(*sym, all, list, list.len(), p);
        }
    }
    out
}

/// The name of a trampoline's parameter.
pub open spec fn arg_name(i: int) -> Seq<char> {
    "__a"@ + text::decimal(i)
}

/// The parameters of a trampoline: the environment, then `n` of the types from `from` on.
pub open spec fn tramp_params(sym: SymTab, tys: Seq<HType>, from: int, n: nat) -> Seq<Seq<char>>
    decreases n,
{
    if n == 0 {
        seq!["void* __env"@]
    } else {
        tramp_params(sym, tys, from, (n - 1) as nat).push(
            ctypes::decl_c(sym, tys[from + n - 1], arg_name(n - 1)),
        )
    }
}

/// The arguments that a trampoline passes on, after those in `first`.
pub open spec fn tramp_args(first: Seq<Seq<char>>, n: nat) -> Seq<Seq<char>>
    decreases n,
{
    if n == 0 {
        first
    } else {
        tramp_args(first, (n - 1) as nat).push(arg_name(n - 1))
    }
}

/// The signature's types can be spelled, parameters from position `from` on.
pub open spec fn tramp_ok(sym: SymTab, sig: FuncSig, from: int) -> bool {
    &&& ctypes::ty_ok(sym, sig.ret)
    &&& forall|i: int|
        from <= i < sig.param_tys@.len() ==> ctypes::ty_ok(sym, #[trigger] sig.param_tys@[i])
}

fn tramp_parts(sym: &SymTab, sig: &FuncSig, from: usize, first: Vec<String>) -> (r: (
    String,
    String,
))
    requires
        from <= sig.param_tys@.len(),
        tramp_ok(*sym, *sig, from as int),
    ensures
        r.0@ == text::joined(
            tramp_params(
                *sym,
                sig.param_tys@,
                from as int,
                (sig.param_tys@.len() - from) as nat,
            ),
            ", "@,
        ),
        r.1@ == text::joined(
            tramp_args(text::views(first@), (sig.param_tys@.len() - from) as nat),
            ", "@,
        ),
{
    let ghost start: Seq<Seq<char>> = text::views(first@);
    let mut params: Vec<String> = no_parts();
    push_part(&mut params, own("void* __env"));
    let mut args: Vec<String> = first;
    let total: usize = sig.param_tys.len();
    let mut i: usize = from;
    assert(Seq::<Seq<char>>::empty().push("void* __env"@) =~= tramp_params(
        *sym,
        sig.param_tys@,
        from as int,
        0,
    ));
    while i < total
        invariant
            from <= i <= total,
            total == sig.param_tys@.len(),
            tramp_ok(*sym, *sig, from as int),
            text::views(params@) == tramp_params(
                *sym,
                sig.param_tys@,
                from as int,
                (i - from) as nat,
            ),
            text::views(args@) == tramp_args(start, (i - from) as nat),
        decreases total - i,
    {
        assert(ctypes::ty_ok(*sym, sig.param_tys@[i as int]));
        let name: String = cat2("__a", &dec_u64((i - from) as u64));
        push_part(&mut params, c_decl(sym, &sig.param_tys[i], &name));
        push_part(&mut args, name);
        i += 1;
    }
    (join(&params, ", "), join(&args, ", "))
}

/// The trampoline of a function that is used as a value: it ignores the environment.
/// `linked` says whether the module has functions at all.
pub open spec fn tramp_text(sym: SymTab, sig: FuncSig, linked: bool) -> Seq<char> {
    let n = sig.param_tys@.len();
    let ind = text::deeper_c(""@);
    let call = ctypes::callee_c(sig) + "("@ + text::joined(tramp_args(Seq::empty(), n), ", "@) + ");"@;
    text::line_c(
        ""@,
        "static "@ + ctypes::ret_c(sym, sig.ret) + " __tramp_"@ + ctypes::callee_c(sig) + "("@ + text::joined(
            tramp_params(sym, sig.param_tys@, 0, n),
            ", "@,
        ) + ") {"@,
    ) + text::line_c(ind, "(void)__env;"@) + (if sig.ret is Unit {
        text::line_c(
            ind,
            if linked { call } else { "(void)"@ + ctypes::callee_c(sig) + ";"@ },
        ) + text::line_c(ind, "return;"@)
    } else {
        text::line_c(ind, "return "@ + call)
    }) + text::line_c(""@, "}"@)
}

fn trampoline(sym: &SymTab, sig: &FuncSig, linked: bool) -> (r: String)
    requires
        tramp_ok(*sym, *sig, 0),
    ensures
        r@ == tramp_text(*sym, *sig, linked),
{
    let ind: String = deeper("");
    let target: String = callee_name(sig);
    let (params, args) = tramp_parts(sym, sig, 0, no_parts());
    let call: String = cat4(&target, "(", &args, ");");
    let head: String = cat7(
        "static ",
        &c_ret_type(sym, &sig.ret),
        " __tramp_",
        &target,
        "(",
        &params,
        ") {",
    );
    let body: String = match &sig.ret {
        HType::Unit => {
            let run: String = if linked { call } else { cat3("(void)", &target, ";") };
            cat2(&line(&ind, &run), &line(&ind, "return;"))
        },
        _ => line(&ind, &cat2("return ", &call)),
    };
    cat4(&line("", &head), &line(&ind, "(void)__env;"), &body, &line("", "}"))
}

/// The function gets a trampoline: it exists and is not inline.
pub open spec fn gets_trampoline(sym: SymTab, id: u32) -> bool {
    sym.has_sig(FuncId(id)) && !sym.the_sig(FuncId(id)).is_inline
}

/// The trampolines of the first `n` functions.
pub open spec fn tramps_text(sym: SymTab, ids: Seq<u32>, linked: bool, n: nat) -> Seq<char>
    decreases n,
{
    if n == 0 || n > ids.len() {
        ""@
    } else {
        let before = tramps_text(sym, ids, linked, (n - 1) as nat);
        if gets_trampoline(sym, ids[n - 1]) {
            before + tramp_text(sym, sym.the_sig(FuncId(ids[n - 1])), linked)
        } else {
            before
        }
    }
}

/// The trampolines of every function that is used as a value, in ascending order.
pub open spec fn trampolines(sym: SymTab, ids: Set<u32>, linked: bool) -> Seq<char> {
    let list = sorted::ascending::<u32>(ids);
    tramps_text(sym, list, linked, list.len())
}

/// The trampolines can be written.
pub open spec fn trampolines_ok(sym: SymTab, ids: Set<u32>) -> bool {
    forall|id: u32| #[trigger]
        ids.contains(id) && gets_trampoline(sym, id) ==> tramp_ok(
            sym,
            sym.the_sig(FuncId(id)),
            0,
        )
}

proof fn lemma_tramp_there(sym: SymTab, ids: Seq<u32>, linked: bool, n: nat, i: int)
    requires
        0 <= i < n <= ids.len(),
        gets_trampoline(sym, ids[i]),
    ensures
        text::has_part(
            tramps_text(sym, ids, linked, n),
            tramp_text(sym, sym.the_sig(FuncId(ids[i])), linked),
        ),
    decreases n,
{
    let part = tramp_text(sym, sym.the_sig(FuncId(ids[i])), linked);
    let before = tramps_text(sym, ids, linked, (n - 1) as nat);
    if i == n - 1 {
        text::lemma_part_last(before, part);
    } else {
        lemma_tramp_there(sym, ids, linked, (n - 1) as nat, i);
        text::lemma_part_kept(before, tramp_text(sym, sym.the_sig(FuncId(ids[n - 1])), linked), part);
    }
}

/// The text holds the trampoline of every function that gets one.
pub open spec fn trampolines_there(
    sym: SymTab,
    ids: Set<u32>,
    linked: bool,
    out: Seq<char>,
) -> bool {
    forall|id: u32| #[trigger]
        ids.contains(id) && gets_trampoline(sym, id) ==> text::has_part(
            out,
            tramp_text(sym, sym.the_sig(FuncId(id)), linked),
        )
}

/// Writes the trampolines of every function that is used as a value.
pub fn emit_trampolines(sym: &SymTab, ids: &SortedMap<u32, ()>, linked: bool) -> (r: String)
    requires
        ids.wf(),
        trampolines_ok(*sym, ids.dom()),
    ensures
        r@ == trampolines(*sym, ids.dom(), linked),
        trampolines_there(*sym, ids.dom(), linked, r@),
{
    proof {
        ids.lemma_listing();
    }
    let ghost list: Seq<u32> = ids.keys();
    let mut out: String = own("");
    let mut i: usize = 0;
    while i < ids.len()
        invariant
            i <= list.len(),
            list == ids.keys(),
            trampolines_ok(*sym, ids.dom()),
            out@ == tramps_text(*sym, list, linked, i as nat),
        decreases list.len() - i,
    {
        let id: u32 = *ids.key(i);
        assert(ids.dom().contains(ids.keys()[i as int]));
        if (id as usize) < sym.sigs.len() {
            let sig: &FuncSig = sym.func_sig(FuncId(id));
            if !sig.is_inline {
                out.append(&trampoline(sym, sig, linked));
            }
        }
        i += 1;
    }
    proof {
        assert forall|id: u32| #[trigger]
            ids.dom().contains(id) && gets_trampoline(*sym, id) implies text::has_part(
            out@,
            tramp_text(*sym, sym.the_sig(FuncId(id)), linked),
        ) by {
            let p = choose|p: int| 0 <= p < list.len() && list[p] == id;
            lemma_tramp_there(*sym, list, linked, list.len(), p);
        }
    }
    out
}

/// The struct that the first parameter of a lifted lambda refers to.
pub open spec fn env_param(sig: FuncSig) -> Option<StructId> {
    if sig.param_tys@.len() == 0 {
        None
    } else {
        match sig.param_tys@[0] {
            HType::Ref { inner, .. } => match *inner {
                HType::Struct(id) => Some(id),
                _ => None,
            },
            _ => None,
        }
    }
}

fn env_of(sig: &FuncSig) -> (r: Option<StructId>)
    ensures
        r == env_param(*sig),
{
    if sig.param_tys.len() == 0 {
        return None;
    }
    match &sig.param_tys[0] {
        HType::Ref { inner, .. } => match &**inner {
            HType::Struct(id) => Some(*id),
            _ => None,
        },
        _ => None,
    }
}

/// The trampoline of a closure: it unpacks the environment and passes it on.
pub open spec fn closure_tramp_text(sym: SymTab, sig: FuncSig, env: StructId) -> Seq<char> {
    let n = (sig.param_tys@.len() - 1) as nat;
    let ind = text::deeper_c(""@);
    let name = text::ident(sym.the_struct(env).name@);
    let lifted = text::ident(sig.c_name@);
    let call = lifted + "("@ + text::joined(tramp_args(seq!["__es"@], n), ", "@) + ");"@;
    text::line_c(
        ""@,
        "static "@ + ctypes::ret_c(sym, sig.ret) + " "@ + lifted + "_closure_trampoline("@ + text::joined(
            tramp_params(sym, sig.param_tys@, 1, n),
            ", "@,
        ) + ") {"@,
    ) + text::line_c(ind, name + "* __es = ("@ + name + "*)__env;"@) + (if sig.ret is Unit {
        text::line_c(ind, call) + text::line_c(ind, "return;"@)
    } else {
        text::line_c(ind, "return "@ + call)
    }) + text::line_c(""@, "}"@)
}

fn closure_trampoline(sym: &SymTab, sig: &FuncSig, env: StructId) -> (r: String)
    requires
        env_param(*sig) == Some(env),
        sym.has_struct(env),
        tramp_ok(*sym, *sig, 1),
    ensures
        r@ == closure_tramp_text(*sym, *sig, env),
{
    let ind: String = deeper("");
    let name: String = c_ident(&sym.struct_info(env).name);
    let lifted: String = c_ident(&sig.c_name);
    let mut first: Vec<String> = no_parts();
    push_part(&mut first, own("__es"));
    assert(Seq::<Seq<char>>::empty().push("__es"@) =~= seq!["__es"@]);
    let (params, args) = tramp_parts(sym, sig, 1, first);
    let call: String = cat4(&lifted, "(", &args, ");");
    let head: String = cat7(
        "static ",
        &c_ret_type(sym, &sig.ret),
        " ",
        &lifted,
        "_closure_trampoline(",
        &params,
        ") {",
    );
    let body: String = match &sig.ret {
        HType::Unit => cat2(&line(&ind, &call), &line(&ind, "return;")),
        _ => line(&ind, &cat2("return ", &call)),
    };
    cat4(
        &line("", &head),
        &line(&ind, &cat4(&name, "* __es = (", &name, "*)__env;")),
        &body,
        &line("", "}"),
    )
}

/// The environment of the lambda with that number, where it gets a trampoline.
pub open spec fn closure_env(sym: SymTab, id: u32) -> Option<StructId> {
    if sym.has_sig(FuncId(id)) { env_param(sym.the_sig(FuncId(id))) } else { None }
}

/// The closure trampolines of the first `n` lambdas.
pub open spec fn closure_tramps_text(sym: SymTab, ids: Seq<u32>, n: nat) -> Seq<char>
    decreases n,
{
    if n == 0 || n > ids.len() {
        ""@
    } else {
        let before = closure_tramps_text(sym, ids, (n - 1) as nat);
        match closure_env(sym, ids[n - 1]) {
            Some(env) => before + closure_tramp_text(sym, sym.the_sig(FuncId(ids[n - 1])), env),
            None => before,
        }
    }
}

/// The trampolines of every closure, in ascending order.
pub open spec fn closure_trampolines(sym: SymTab, ids: Set<u32>) -> Seq<char> {
    let list = sorted::ascending::<u32>(ids);
    closure_tramps_text(sym, list, list.len())
}

/// The closure trampolines can be written.
pub open spec fn closure_trampolines_ok(sym: SymTab, ids: Set<u32>) -> bool {
    forall|id: u32| #[trigger]
        ids.contains(id) ==> match closure_env(sym, id) {
            Some(env) => sym.has_struct(env) && tramp_ok(sym, sym.the_sig(FuncId(id)), 1),
            None => true,
        }
}

proof fn lemma_closure_there(sym: SymTab, ids: Seq<u32>, n: nat, i: int, env: StructId)
    requires
        0 <= i < n <= ids.len(),
        closure_env(sym, ids[i]) == Some(env),
    ensures
        text::has_part(
            closure_tramps_text(sym, ids, n),
            closure_tramp_text(sym, sym.the_sig(FuncId(ids[i])), env),
        ),
    decreases n,
{
    let part = closure_tramp_text(sym, sym.the_sig(FuncId(ids[i])), env);
    let before = closure_tramps_text(sym, ids, (n - 1) as nat);
    if i == n - 1 {
        text::lemma_part_last(before, part);
    } else {
        lemma_closure_there(sym, ids, (n - 1) as nat, i, env);
        match closure_env(sym, ids[n - 1]) {
            Some(e) => text::lemma_part_kept(
                before,
                closure_tramp_text(sym, sym.the_sig(FuncId(ids[n - 1])), e),
                part,
            ),
            None => {},
        }
    }
}

/// The text holds the trampoline of every closure that gets one.
pub open spec fn closures_there(sym: SymTab, ids: Set<u32>, out: Seq<char>) -> bool {
    forall|id: u32| #[trigger]
        ids.contains(id) ==> match closure_env(sym, id) {
            Some(env) => text::has_part(out, closure_tramp_text(sym, sym.the_sig(FuncId(id)), env)),
            None => true,
        }
}

/// Writes the trampolines of every closure.
pub fn emit_closure_trampolines(sym: &SymTab, ids: &SortedMap<u32, ()>) -> (r: String)
    requires
        ids.wf(),
        closure_trampolines_ok(*sym, ids.dom()),
    ensures
        r@ == closure_trampolines(*sym, ids.dom()),
        closures_there(*sym, ids.dom(), r@),
{
    proof {
        ids.lemma_listing();
    }
    let ghost list: Seq<u32> = ids.keys();
    let mut out: String = own("");
    let mut i: usize = 0;
    while i < ids.len()
        invariant
            i <= list.len(),
            list == ids.keys(),
            closure_trampolines_ok(*sym, ids.dom()),
            out@ == closure_tramps_text(*sym, list, i as nat),
        decreases list.len() - i,
    {
        let id: u32 = *ids.key(i);
        assert(ids.dom().contains(ids.keys()[i as int]));
        if (id as usize) < sym.sigs.len() {
            let sig: &FuncSig = sym.func_sig(FuncId(id));
            match env_of(sig) {
                Some(env) => {
                    out.append(&closure_trampoline(sym, sig, env));
                },
                None => {},
            }
        }
        i += 1;
    }
    proof {
        assert forall|id: u32| #[trigger] ids.dom().contains(id) implies match closure_env(
            *sym,
            id,
        ) {
            Some(env) => text::has_part(out@, closure_tramp_text(*sym, sym.the_sig(FuncId(id)), env)),
            None => true,
        } by {
            let p = choose|p: int| 0 <= p < list.len() && list[p] == id;
            if let Some(env) = closure_env(*sym, id) {
                lemma_closure_there(*sym, list, list.len(), p, env);
            }
        }
    }
    out
}

/// Every method name of a logic block has a slot in its table type, so every entry of a
/// struct's table has a place.
pub proof fn law_methods_have_slots(sym: SymTab, l: LogicInfo, name: Seq<char>)
    ensures
        method_names(sym, l).contains(name) ==> method_from(sym, l, name, 0) is Some,
        forall|id: StructId| #[trigger]
            impl_from(sym, l, name, id, 0) is Some ==> method_names(sym, l).contains(name),
{
    if method_names(sym, l).contains(name) {
        let i = choose|i: int|
            0 <= i < l.funcs@.len() && sym.the_sig(#[trigger] l.funcs@[i]).name@ == name;
        lemma_method_found(sym, l, name, 0, i);
    }
    assert forall|id: StructId| #[trigger] impl_from(sym, l, name, id, 0) is Some implies method_names(
        sym,
        l,
    ).contains(name) by {
        lemma_impl_named(sym, l, name, id, 0);
    }
}

proof fn lemma_method_found(sym: SymTab, l: LogicInfo, name: Seq<char>, from: nat, i: int)
    requires
        from <= i < l.funcs@.len(),
        sym.the_sig(l.funcs@[i]).name@ == name,
    ensures
        method_from(sym, l, name, from) is Some,
    decreases i - from,
{
    if sym.the_sig(l.funcs@[from as int]).name@ != name {
        lemma_method_found(sym, l, name, from + 1, i);
    }
}

proof fn lemma_impl_named(sym: SymTab, l: LogicInfo, name: Seq<char>, id: StructId, from: nat)
    requires
        impl_from(sym, l, name, id, from) is Some,
    ensures
        method_names(sym, l).contains(name),
    decreases l.funcs@.len() - from,
{
    let sig = sym.the_sig(l.funcs@[from as int]);
    if sig.name@ == name && is_method_of(sig, id) {
        assert(sym.the_sig(l.funcs@[from as int]).name@ == name);
    } else {
        lemma_impl_named(sym, l, name, id, from + 1);
    }
}

} // verus!
