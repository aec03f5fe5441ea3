//! What the lists of a module hold, and in which order.
use vstd::prelude::*;

use crate::context::St;
use crate::ctypes;
use crate::definitions;
use crate::dispatch;
use crate::drops;
use crate::functions;
use crate::hir::{FieldInfo, HFunc, HType, HirModule, LocalId, StructId, StructInfo, SymTab};
use crate::layout;
use crate::layout::TypeRef;
use crate::lowered;
use crate::module;
use crate::scan;
use crate::scan::Noted;
use crate::sorted;
use crate::sorted::Key;
use crate::text;
use crate::typedefs;
use crate::value_laws;
use crate::values;

verus! {

/// A struct is written out unless it has type parameters or is the run-time support's own.
pub open spec fn shown(s: StructInfo) -> bool {
    s.type_params@.len() == 0 && s.name@ != "Thread"@
}

/// A name owns exactly where a struct or an enum of that name has a field whose type owns.
pub proof fn law_owners_have_an_owning_field(sym: SymTab, name: Seq<char>)
    ensures
        drops::owning_names(sym).contains(name) <==> ({
            let owns = drops::owning_names(sym);
            ||| exists|i: int, j: int|
                0 <= i < sym.structs@.len() && shown(sym.structs@[i]) && sym.structs@[i].name@
                    == name && 0 <= j < sym.structs@[i].fields@.len() && drops::ty_owns(
                    sym,
                    owns,
                    (#[trigger] sym.structs@[i].fields@[j]).ty,
                )
            ||| exists|i: int, k: int, j: int|
                0 <= i < sym.enums@.len() && sym.enums@[i].name@ == name && 0 <= k
                    < sym.enums@[i].variants@.len() && 0 <= j
                    < sym.enums@[i].variants@[k].fields@.len() && drops::ty_owns(
                    sym,
                    owns,
                    (#[trigger] sym.enums@[i].variants@[k].fields@[j]).ty,
                )
        }),
{
    let owns = drops::owning_names(sym);
    drops::law_owning_names_closed(sym);
    if exists|i: int, j: int|
        0 <= i < sym.structs@.len() && shown(sym.structs@[i]) && sym.structs@[i].name@ == name && 0
            <= j < sym.structs@[i].fields@.len() && drops::ty_owns(
            sym,
            owns,
            (#[trigger] sym.structs@[i].fields@[j]).ty,
        ) {
        let (i, j) = choose|i: int, j: int|
            0 <= i < sym.structs@.len() && shown(sym.structs@[i]) && sym.structs@[i].name@ == name
                && 0 <= j < sym.structs@[i].fields@.len() && drops::ty_owns(
                sym,
                owns,
                (#[trigger] sym.structs@[i].fields@[j]).ty,
            );
        assert(drops::struct_owns(sym, owns, sym.structs@[i]));
    } else if exists|i: int, k: int, j: int|
        0 <= i < sym.enums@.len() && sym.enums@[i].name@ == name && 0 <= k
            < sym.enums@[i].variants@.len() && 0 <= j < sym.enums@[i].variants@[k].fields@.len()
            && drops::ty_owns(sym, owns, (#[trigger] sym.enums@[i].variants@[k].fields@[j]).ty) {
        let (i, k, j) = choose|i: int, k: int, j: int|
            0 <= i < sym.enums@.len() && sym.enums@[i].name@ == name && 0 <= k
                < sym.enums@[i].variants@.len() && 0 <= j < sym.enums@[i].variants@[k].fields@.len()
                && drops::ty_owns(sym, owns, (#[trigger] sym.enums@[i].variants@[k].fields@[j]).ty);
        let e = sym.enums@[i];
        assert(e.variants@[k].fields@.len() > 0);
        assert(drops::any_field_owns(sym, owns, e.variants@[k].fields@));
        assert(drops::enum_owns(sym, owns, e));
    } else if owns.contains(name) {
        let less = owns.remove(name);
        assert forall|i: int|
            0 <= i < sym.structs@.len() && drops::struct_owns(sym, less, #[trigger] sym.structs@[i])
            implies less.contains(sym.structs@[i].name@) by {
            let s = sym.structs@[i];
            drops::lemma_fields_own_grows(sym, less, owns, s.fields@);
            assert(drops::struct_owns(sym, owns, s));
            let j = choose|j: int|
                0 <= j < s.fields@.len() && drops::ty_owns(sym, owns, (#[trigger] s.fields@[j]).ty);
            assert(drops::ty_owns(sym, owns, sym.structs@[i].fields@[j].ty));
        }
        assert forall|i: int|
            0 <= i < sym.enums@.len() && drops::enum_owns(sym, less, #[trigger] sym.enums@[i])
            implies less.contains(sym.enums@[i].name@) by {
            let e = sym.enums@[i];
            drops::lemma_enum_owns_grows(sym, less, owns, e);
            assert(drops::enum_owns(sym, owns, e));
            let k = choose|k: int|
                0 <= k < e.variants@.len() && drops::any_field_owns(
                    sym,
                    owns,
                    (#[trigger] e.variants@[k]).fields@,
                );
            let fields = e.variants@[k].fields@;
            let j = choose|j: int|
                0 <= j < fields.len() && drops::ty_owns(sym, owns, (#[trigger] fields[j]).ty);
            assert(drops::ty_owns(sym, owns, sym.enums@[i].variants@[k].fields@[j].ty));
        }
        assert(drops::owns_closed(sym, less));
        assert(less.contains(name));
    }
}

/// Glue is declared for the structs and enums that own, under their names.
pub proof fn law_glue_is_declared(sym: SymTab, owns: Set<Seq<char>>, n: nat)
    ensures
        n < sym.structs@.len() ==> ({
            let s = sym.structs@[n as int];
            let c = text::ident(s.name@);
            let before = drops::struct_glue_decls(sym, owns, n);
            drops::struct_glue_decls(sym, owns, n + 1) == (if shown(s) && owns.contains(s.name@) {
                before + text::line_c(""@, "static void __maka_drop_"@ + c + "(struct "@ + c
                    + "* p)"@ + ";"@)
            } else {
                before
            })
        }),
        n < sym.enums@.len() ==> ({
            let e = sym.enums@[n as int];
            let c = text::ident(e.name@);
            let before = drops::enum_glue_decls(sym, owns, n);
            drops::enum_glue_decls(sym, owns, n + 1) == (if value_laws::some_values(e)
                && owns.contains(e.name@) {
                before + text::line_c(""@, "static void __maka_drop_"@ + c + "(struct "@ + c
                    + "* p)"@ + ";"@)
            } else {
                before
            })
        }),
        n < sym.structs@.len() && !(shown(sym.structs@[n as int]) && owns.contains(
            sym.structs@[n as int].name@,
        )) ==> drops::struct_glue_bodies(sym, owns, n + 1) == drops::struct_glue_bodies(sym, owns,
            n),
        n < sym.enums@.len() && !(value_laws::some_values(sym.enums@[n as int]) && owns.contains(
            sym.enums@[n as int].name@,
        )) ==> drops::enum_glue_bodies(sym, owns, n + 1) == drops::enum_glue_bodies(sym, owns, n),
        n < sym.structs@.len() && shown(sym.structs@[n as int]) && owns.contains(
            sym.structs@[n as int].name@,
        ) || n < sym.enums@.len() && value_laws::some_values(sym.enums@[n as int]) && owns.contains(
            sym.enums@[n as int].name@,
        ) ==> drops::drop_glue_c(sym, owns) == "/* ---- recursive drop glue ---- */\n"@ + (
        drops::struct_glue_decls(sym, owns, sym.structs@.len()) + drops::enum_glue_decls(
            sym,
            owns,
            sym.enums@.len(),
        )) + (drops::struct_glue_bodies(sym, owns, sym.structs@.len()) + drops::enum_glue_bodies(
            sym,
            owns,
            sym.enums@.len(),
        )) + "\n"@,
{
    let k = n + 1;
    assert((k - 1) as nat == n);
    reveal_strlit("/* ---- recursive drop glue ---- */");
    reveal_strlit("/* ---- recursive drop glue ---- */\n");
    reveal_strlit("\n");
    reveal_strlit("");
    let a = drops::struct_glue_decls(sym, owns, sym.structs@.len());
    let b = drops::enum_glue_decls(sym, owns, sym.enums@.len());
    let c = drops::struct_glue_bodies(sym, owns, sym.structs@.len());
    let e = drops::enum_glue_bodies(sym, owns, sym.enums@.len());
    let h = text::line_c(""@, "/* ---- recursive drop glue ---- */"@);
    let z = text::line_c(""@, ""@);
    assert(h =~= "/* ---- recursive drop glue ---- */\n"@);
    assert(z =~= "\n"@);
    assert(h + a + b + c + e + z =~= h + (a + b) + (c + e) + z);
    if n < sym.enums@.len() {
        let x = sym.enums@[n as int];
        assert(value_laws::some_values(x) <==> !x.simple());
    }
}

/// Every noted trait that is known, table, callable type, function and closure is written out
/// in its turn, and no other.
pub proof fn law_noted_things_are_written(
    sym: SymTab,
    names: Seq<Seq<char>>,
    insts: Seq<(Seq<char>, u32)>,
    sigs: Map<Seq<char>, (HType, Vec<HType>)>,
    ids: Seq<u32>,
    linked: bool,
    n: nat,
    i: int,
)
    ensures
        n < names.len() ==> dispatch::callables_text(sym, sigs, names, n + 1)
            == dispatch::callables_text(
            sym,
            sigs,
            names,
            n,
        ) + dispatch::callable_text(sym, names[n as int], sigs[names[n as int]]),
        n < names.len() && first_logic(sym, names[n as int], i) ==> dispatch::traits_text(sym,
            names, n + 1)
            == dispatch::traits_text(sym, names, n) + dispatch::trait_text(sym, sym.logics@[i],
                names[n as int]),
        n < insts.len() && first_logic(sym, insts[n as int].0, i) ==> dispatch::tables_text(sym,
            insts, n + 1)
            == dispatch::tables_text(sym, insts, n) + dispatch::table_text(
            sym,
            sym.logics@[i],
            insts[n as int].0,
            StructId(insts[n as int].1),
        ),
        n < ids.len() && ids[n as int] < sym.sigs@.len() ==> ({
            let sig = sym.sigs@[ids[n as int] as int];
            dispatch::tramps_text(sym, ids, linked, n + 1) == (if sig.is_inline {
                dispatch::tramps_text(sym, ids, linked, n)
            } else {
                dispatch::tramps_text(sym, ids, linked, n) + dispatch::tramp_text(sym, sig, linked)
            })
        }),
        n < ids.len() && ids[n as int] < sym.sigs@.len() ==> ({
            let sig = sym.sigs@[ids[n as int] as int];
            let before = dispatch::closure_tramps_text(sym, ids, n);
            if sig.param_tys@.len() == 0 {
                dispatch::closure_tramps_text(sym, ids, n + 1) == before
            } else {
                match sig.param_tys@[0] {
                    HType::Ref { inner, .. } => match *inner {
                        HType::Struct(env) => dispatch::closure_tramps_text(sym, ids, n + 1)
                            == before
                            + dispatch::closure_tramp_text(sym, sig, env),
                        _ => dispatch::closure_tramps_text(sym, ids, n + 1) == before,
                    },
                    _ => dispatch::closure_tramps_text(sym, ids, n + 1) == before,
                }
            }
        }),
{
    let k = n + 1;
    assert((k - 1) as nat == n);
    if n < names.len() && first_logic(sym, names[n as int], i) {
        lemma_first_logic(sym, names[n as int], i, 0);
    }
    if n < insts.len() && first_logic(sym, insts[n as int].0, i) {
        lemma_first_logic(sym, insts[n as int].0, i, 0);
    }
}

/// Position `i` is the first at which a trait of that name stands.
pub open spec fn first_logic(sym: SymTab, name: Seq<char>, i: int) -> bool {
    &&& 0 <= i < sym.logics@.len()
    &&& sym.logics@[i].name@ == name
    &&& forall|j: int| 0 <= j < i ==> (#[trigger] sym.logics@[j]).name@ != name
}

proof fn lemma_first_logic(sym: SymTab, name: Seq<char>, i: int, from: nat)
    requires
        first_logic(sym, name, i),
        from <= i,
    ensures
        sym.logic_from(name, from) == Some(i),
    decreases i - from,
{
    if from < i {
        lemma_first_logic(sym, name, i, from + 1);
    }
}

/// The captured values of a lifted lambda are unpacked from its first parameter, which points
/// to their struct: all locals behind the parameters are considered.
pub proof fn law_lambda_unpacks_its_captures(
    d: nat,
    sym: SymTab,
    owns: Set<Seq<char>>,
    st: St,
    f: HFunc,
    env: StructId,
    mutable: bool,
    last: u32,
)
    requires
        !sym.the_sig(f.id).is_inline,
        text::begins(sym.the_sig(f.id).name@, "__lambda_cap_"@),
        f.params@.len() > 0,
        f.locals@[f.params@[0].0 as int].ty == (HType::Ref {
            inner: Box::new(HType::Struct(env)),
            mutable,
        }),
        f.params@.last() == LocalId(last),
        last < u32::MAX,
        f.locals@.len() <= u32::MAX,
    ensures
        functions::func_c(d, sym, owns, st, f).text == text::line_c(""@, ctypes::signature_c(sym, f)
            + " {"@) + functions::captures_c(
            sym,
            f,
            sym.structs@[env.0 as int],
            text::deeper_c(""@),
            (last + 1) as nat,
            f.locals@.len(),
        ) + lowered::block_c(d, functions::body_cx(sym, owns, f), st, f.body).text
            + text::line_c(""@, "}"@) + text::line_c(
            ""@,
            ""@,
        ),
{
    assert(last.wrapping_add(1) == last + 1);
}

/// Only what is held by value must be defined before its holder: structs, enums whose variants
/// carry values, and arrays of these; nothing behind a pointer.
pub proof fn law_what_must_come_first(sym: SymTab, t: HType)
    ensures
        match t {
            HType::Struct(id) => layout::embedded(sym, t) == Some(sym.structs@[id.0 as int].name@),
            HType::Enum(id) => layout::embedded(sym, t)
                == (if value_laws::some_values(sym.enums@[id.0 as int]) {
                Some(sym.enums@[id.0 as int].name@)
            } else {
                None
            }),
            HType::Array { elem, .. } => layout::embedded(sym, t) == layout::embedded(sym, *elem),
            _ => layout::embedded(sym, t) is None,
        },
{
    if let HType::Enum(id) = t {
        let e = sym.enums@[id.0 as int];
        assert(value_laws::some_values(e) <==> !e.simple());
    }
}

/// The types to define are those that are written out, the first of each name: every struct
/// that is shown, and every enum whose variants carry values.
pub proof fn law_types_to_define(sym: SymTab, n: nat)
    ensures
        n < sym.structs@.len() ==> ({
            let s = sym.structs@[n as int];
            let before = layout::struct_refs(sym, n);
            layout::struct_refs(sym, n + 1) == (if shown(s) && !(exists|i: int|
                0 <= i < before.len() && layout::ref_name(sym, #[trigger] before[i]) == s.name@) {
                before.push(TypeRef { is_enum: false, index: n as usize })
            } else {
                before
            })
        }),
        n < sym.enums@.len() ==> ({
            let e = sym.enums@[n as int];
            let before = layout::type_refs(sym, n);
            layout::type_refs(sym, n + 1) == (if value_laws::some_values(e) && !(exists|i: int|
                0 <= i < before.len() && layout::ref_name(sym, #[trigger] before[i]) == e.name@) {
                before.push(TypeRef { is_enum: true, index: n as usize })
            } else {
                before
            })
        }),
        layout::type_refs(sym, 0) == layout::struct_refs(sym, sym.structs@.len()),
        layout::all_types(sym) == layout::type_refs(sym, sym.enums@.len()),
{
    let k = n + 1;
    assert((k - 1) as nat == n);
    if n < sym.enums@.len() {
        let e = sym.enums@[n as int];
        assert(value_laws::some_values(e) <==> !e.simple());
    }
}

/// The name of a type to define is that of its struct or enum.
pub proof fn law_names_of_types(sym: SymTab, index: usize)
    ensures
        layout::ref_name(sym, TypeRef { is_enum: true, index }) == sym.enums@[index as int].name@,
        layout::ref_name(sym, TypeRef { is_enum: false, index })
            == sym.structs@[index as int].name@,
{
}

/// Types are defined one after the other, each as its kind is.
pub proof fn law_types_are_defined(sym: SymTab, refs: Seq<TypeRef>, n: nat)
    requires
        n < refs.len(),
    ensures
        ({
            let i = refs[n as int].index as int;
            definitions::type_defs(sym, refs, n + 1) == definitions::type_defs(sym, refs, n)
                + (if refs[n as int].is_enum {
                definitions::enum_def(sym, sym.enums@[i])
            } else {
                definitions::struct_def(sym, sym.structs@[i])
            })
        }),
        definitions::type_defs(sym, refs, 0) == ""@,
{
    let k = n + 1;
    assert((k - 1) as nat == n);
}

/// Every type of slices and of vectors is written unless it is there already; afterwards it is
/// there.
pub proof fn law_sequence_types_are_written(out: Seq<char>, keys: Seq<Seq<char>>, n: nat)
    requires
        n < keys.len(),
    ensures
        ({
            let before = typedefs::add_slices(out, keys, n);
            let there = text::has_part(before, "typedef struct "@ + ("Slice_"@ + keys[n as int])
                + " "@);
            typedefs::add_slices(out, keys, n + 1) == (if there {
                before
            } else {
                before + typedefs::slice_typedef(keys[n as int])
            })
        }),
        ({
            let before = typedefs::add_vecs(out, keys, n);
            let there = text::has_part(before, "typedef struct "@ + ("Vec_"@ + keys[n as int])
                + " "@);
            typedefs::add_vecs(out, keys, n + 1) == (if there {
                before
            } else {
                before + typedefs::vec_typedef(keys[n as int])
            })
        }),
        typedefs::add_slices(out, keys, 0) == out,
        typedefs::add_vecs(out, keys, 0) == out,
{
    let k = n + 1;
    assert((k - 1) as nat == n);
}

/// A hosted program has slices of integers and of floating-point numbers, whatever it uses.
pub proof fn law_first_sequence_types(key: Seq<char>)
    ensures
        module::first_notes(false).slices.contains(key) <==> key == "maka_int"@ || key
            == "maka_float"@,
        !module::first_notes(true).slices.contains(key),
        !module::first_notes(false).vecs.contains(key)
            && !module::first_notes(true).vecs.contains(key),
{
}

/// The parts of a module before its functions: what is declared of the structs and enums, the
/// slices and vectors that their fields need, their definitions, and the slices and vectors
/// that the functions need.
pub proof fn law_types_in_order(m: HirModule, freestanding: bool)
    ensures
        ({
            let sym = m.sym;
            let start = module::prologue_text(m.cincludes@, freestanding)
                + (definitions::struct_forwards(
                sym,
                sym.structs@.len(),
            ) + definitions::enum_forwards(sym, sym.enums@.len()));
            let held = definitions::types_noted(sym, module::first_notes(freestanding));
            let used = module::module_notes(sym, freestanding);
            let order = layout::type_order(sym);
            let slices = |k: Set<Seq<char>>| sorted::ascending::<String>(k);
            let first = typedefs::add_vecs(
                typedefs::add_slices(start, slices(held.slices), slices(held.slices).len()),
                slices(held.vecs),
                slices(held.vecs).len(),
            );
            let defined = first + definitions::type_defs(sym, order, order.len()) + "\n"@;
            module::module_types(m, freestanding) == typedefs::add_vecs(
                typedefs::add_slices(defined, slices(used.slices), slices(used.slices).len()),
                slices(used.vecs),
                slices(used.vecs).len(),
            )
        }),
        module::module_c(m, true) == module::declarations_text(m, true) + module::funcs_c(
            module::max_depth(m.sym),
            m.sym,
            drops::owning_names(m.sym),
            m.sym.funcs@.len(),
        ).text,
        module::module_c(m, false) == module::declarations_text(m, false) + module::funcs_c(
            module::max_depth(m.sym),
            m.sym,
            drops::owning_names(m.sym),
            m.sym.funcs@.len(),
        ).text + module::socket_helpers() + module::main_text(m.sym),
{
    let sym = m.sym;
    let p = module::prologue_text(m.cincludes@, freestanding);
    let a = definitions::struct_forwards(sym, sym.structs@.len());
    let b = definitions::enum_forwards(sym, sym.enums@.len());
    assert(p + (a + b) =~= p + a + b);
    reveal_strlit("");
    reveal_strlit("\n");
    assert(text::line_c(""@, ""@) =~= "\n"@);
}

/// The types that the fields of a written struct have are noted, and those of a generic struct
/// are not.
pub proof fn law_field_types_are_noted(sym: SymTab, n: nat, seen: Noted, fields: Seq<FieldInfo>,
    j: nat)
    ensures
        n < sym.structs@.len() ==> ({
            let s = sym.structs@[n as int];
            let before = definitions::noted_structs(sym, n, seen);
            definitions::noted_structs(sym, n + 1, seen) == (if s.type_params@.len() == 0 {
                definitions::noted_fields(sym, s.fields@, s.fields@.len(), before)
            } else {
                before
            })
        }),
        j < fields.len() ==> definitions::noted_fields(sym, fields, j + 1, seen) == scan::note_c(
            sym,
            fields[j as int].ty,
            definitions::noted_fields(sym, fields, j, seen),
        ),
{
    let k = n + 1;
    assert((k - 1) as nat == n);
    let l = j + 1;
    assert((l - 1) as nat == j);
}

/// Types with a given size: the name is made of the sign and the number of bits, and those
/// without a number are as wide as an address.
pub proof fn law_sized_types(sym: SymTab, bits: u32, signed: bool)
    ensures
        bits > 0 ==> ctypes::ty_c(sym, HType::SizedInt { signed: true, bits }) == "int"@
            + (text::decimal(bits as int)
            + "_t"@),
        bits > 0 ==> ctypes::ty_c(sym, HType::SizedInt { signed: false, bits }) == "u"@
            + ctypes::ty_c(
            sym,
            HType::SizedInt { signed: true, bits },
        ),
        ctypes::ty_c(sym, HType::SizedInt { signed: true, bits: 0 }) == "intptr_t"@,
        ctypes::ty_c(sym, HType::SizedInt { signed: false, bits: 0 }) == "uintptr_t"@,
        ctypes::ty_c(sym, HType::SizedFloat { bits: 32 }) == "float"@,
        ctypes::ty_c(sym, HType::SizedFloat { bits: 64 }) == "double"@,
{
    reveal_strlit("");
    let d = text::decimal(bits as int);
    assert(""@ + "int"@ + d + "_t"@ =~= "int"@ + (d + "_t"@));
    assert("u"@ + "int"@ + d + "_t"@ =~= "u"@ + ("int"@ + (d + "_t"@)));
}

/// The key of a function type names its result and its parameters in their order.
pub proof fn law_keys_of_function_types(sym: SymTab, start: Seq<char>, ts: Vec<HType>, n: nat)
    requires
        n < ts@.len(),
    ensures
        ctypes::fn_key(sym, start, ts, n + 1) == ctypes::fn_key(sym, start, ts, n)
            + ctypes::ty_key(sym, ts@[n as int])
            + "_"@,
        ctypes::fn_key(sym, start, ts, 0) == start,
        ctypes::ty_keys(sym, ts, n + 1) == ctypes::ty_keys(sym, ts, n).push(ctypes::ty_key(sym,
            ts@[n as int])),
{
    let k = n + 1;
    assert((k - 1) as nat == n);
}

/// Texts are ordered by the codes of their first characters that differ, and one that another
/// begins with comes before it.
pub proof fn law_order_of_texts(a: Seq<char>, b: Seq<char>, i: int)
    requires
        0 <= i <= a.len() && i <= b.len(),
        a.take(i) == b.take(i),
        i == a.len() && i < b.len() || (i < a.len() && i < b.len() && a[i] < b[i]),
    ensures
        sorted::text_before(a, b),
        !sorted::text_before(b, a),
    decreases i,
{
    if i > 0 {
        assert(a.take(i)[0] == a[0] && b.take(i)[0] == b[0]);
        let x = a.skip(1);
        let y = b.skip(1);
        assert(x.take(i - 1) =~= a.take(i).skip(1));
        assert(y.take(i - 1) =~= b.take(i).skip(1));
        law_order_of_texts(x, y, i - 1);
    }
}

/// Listed names, numbers and pairs of both stand in ascending order, pairs by their names first.
pub proof fn law_lists_are_ascending(
    names: Seq<Seq<char>>,
    ids: Seq<u32>,
    pairs: Seq<(Seq<char>, u32)>,
    i: int,
    j: int,
)
    requires
        0 <= i < j,
    ensures
        sorted::increasing::<String>(names) && j < names.len() ==> sorted::text_before(names[i],
            names[j]),
        sorted::increasing::<u32>(ids) && j < ids.len() ==> ids[i] < ids[j],
        sorted::increasing::<(String, u32)>(pairs) && j < pairs.len() ==> sorted::text_before(
            pairs[i].0,
            pairs[j].0,
        ) || (pairs[i].0 == pairs[j].0 && pairs[i].1 < pairs[j].1),
{
    if sorted::increasing::<(String, u32)>(pairs) && j < pairs.len() {
        assert(<(String, u32) as Key>::before(pairs[i], pairs[j]));
    }
}

/// A literal of an owned array or vector is that of the array or vector itself, and types that
/// nothing is known of are plain addresses.
pub proof fn law_owned_literals_and_unknown_types(
    sym: SymTab,
    t: HType,
    parts: Seq<Seq<char>>,
)
    ensures
        !(t is Heap) ==> values::array_lit_text(sym, HType::Heap { inner: Box::new(t) }, parts)
            == values::array_lit_text(sym, t, parts),
        t is TyVar || t is AssocType || t is GenericPattern || t is RustOpaque || t is NullT
            ==> ctypes::ty_c(sym, t) == "void*"@,
{
}

} // verus!
