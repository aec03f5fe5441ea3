//! What the declarations and definitions of a module hold.
use vstd::prelude::*;

use crate::context::St;
use crate::ctypes;
use crate::definitions;
use crate::dispatch;
use crate::functions;
use crate::hir::{
    EnumId, EnumInfo, FieldInfo, FuncSig, HFunc, HType, LocalId, LogicInfo, StructId, StructInfo,
    SymTab,
};
use crate::lowered;
use crate::module;
use crate::module::{MAIN_ARGS, MAIN_ARGS_STATUS, MAIN_PLAIN, MAIN_STATUS};
use crate::operator_laws;
use crate::statement_laws;
use crate::text;
use crate::typedefs;
use crate::value_laws;

verus! {

/// How a local, a parameter or a field of a type is declared: an array by its element type
/// with the length behind the name, anything else by its type.
pub proof fn law_declarations_have_their_type(sym: SymTab, t: HType, name: Seq<char>)
    ensures
        match t {
            HType::Array { len, elem } => ctypes::decl_c(sym, t, name) == ctypes::decl_c(
                sym,
                *elem,
                name + "["@ + text::decimal(len as int) + "]"@,
            ) && operator_laws::number_value(text::decimal(len as int)) == len,
            _ => ctypes::decl_c(sym, t, name) == ctypes::ty_c(sym, t) + " "@ + name,
        },
{
    if let HType::Array { len, .. } = t {
        operator_laws::law_decimal_reads_back(len as int);
    }
}

/// The C types of the scalars and of named types.
pub proof fn law_named_types(sym: SymTab, s: StructId, e: EnumId, signed: bool, bits: u32)
    ensures
        ctypes::ty_c(sym, HType::Int) == "maka_int"@,
        ctypes::ty_c(sym, HType::Float) == "maka_float"@,
        ctypes::ty_c(sym, HType::Bool) == "bool"@,
        ctypes::ty_c(sym, HType::Char) == "maka_char"@,
        ctypes::ty_c(sym, HType::Unit) == "maka_unit"@,
        ctypes::ty_c(sym, HType::Str) == "const char*"@,
        ctypes::ty_c(sym, HType::NullT) == "void*"@,
        ctypes::ret_c(sym, HType::Unit) == "void"@,
        ctypes::ret_c(sym, HType::Int) == ctypes::ty_c(sym, HType::Int),
        ctypes::ty_c(sym, HType::Struct(s)) == text::ident(sym.structs@[s.0 as int].name@),
        ctypes::ty_c(sym, HType::Enum(e)) == text::ident(sym.enums@[e.0 as int].name@),
        ctypes::ty_c(sym, HType::SizedFloat { bits: 32 }) == "float"@,
        ctypes::ty_c(sym, HType::SizedFloat { bits: 64 }) == "double"@,
        ctypes::ty_c(sym, HType::SizedInt { signed: true, bits: 0 }) == "intptr_t"@,
        ctypes::ty_c(sym, HType::SizedInt { signed: false, bits: 0 }) == "uintptr_t"@,
        bits > 0 ==> ({
            let text = ctypes::ty_c(sym, HType::SizedInt { signed, bits });
            let from: nat = if signed { 3 } else { 4 };
            &&& text::begins(text, if signed { "int"@ } else { "uint"@ })
            &&& operator_laws::number_value(operator_laws::between(text, from, 2)) == bits
            &&& text.skip(text.len() - 2) =~= seq!['_', 't']
        }),
{
    if bits > 0 {
        operator_laws::law_decimal_reads_back(bits as int);
        reveal_strlit("");
        reveal_strlit("u");
        reveal_strlit("int");
        reveal_strlit("uint");
        reveal_strlit("_t");
        let n = text::decimal(bits as int);
        let text = ctypes::ty_c(sym, HType::SizedInt { signed, bits });
        if signed {
            assert(text =~= "int"@ + n + "_t"@);
            assert(operator_laws::between(text, 3, 2) =~= n);
            assert(text.take(3) =~= "int"@);
        } else {
            assert(text =~= "uint"@ + n + "_t"@);
            assert(operator_laws::between(text, 4, 2) =~= n);
            assert(text.take(4) =~= "uint"@);
        }
    }
}

/// A pointer of any kind is the C type of what it leads to with a star. A pointer to a fixed
/// array is one to its elements, a vector behind an owning reference is the vector itself, and
/// a trait object is its own pointer.
pub proof fn law_pointer_types(sym: SymTab, inner: HType, mutable: bool)
    ensures
        ({
            let b = Box::new(inner);
            let shared = ctypes::ty_c(sym, HType::Ref { inner: b, mutable });
            let owned = ctypes::ty_c(sym, HType::Heap { inner: b });
            &&& ctypes::ty_c(sym, HType::Ptr { inner: b, mutable }) == shared
            &&& ctypes::ty_c(sym, HType::RawPtr { inner: b, mutable }) == shared
            &&& ctypes::ty_c(sym, HType::OwnPtr { inner: b, mutable }) == shared
            &&& match inner {
                HType::Array { elem, .. } => shared == ctypes::ty_c(sym, *elem) + "*"@ && owned
                    == shared,
                HType::Dyn { .. } => shared == ctypes::ty_c(sym, inner),
                HType::Vec { .. } => shared == ctypes::ty_c(sym, inner) + "*"@ && owned
                    == ctypes::ty_c(sym, inner),
                _ => shared == ctypes::ty_c(sym, inner) + "*"@ && owned == shared,
            }
        }),
{
}

/// Slices, vectors, function values and trait objects have the types that are declared for
/// them.
pub proof fn law_declared_types(
    sym: SymTab,
    elem: HType,
    mutable: bool,
    traits: Vec<String>,
    ret: HType,
    params: Vec<HType>,
    ret_key: String,
    param_keys: Vec<String>,
)
    ensures
        ({
            let b = Box::new(elem);
            let key = ctypes::ty_key(sym, elem);
            &&& ctypes::ty_c(sym, HType::Slice { elem: b, mutable }) == "Slice_"@ + key
            &&& ctypes::ty_c(sym, HType::Vec { elem: b }) == "Vec_"@ + key
            &&& text::has_part(
                typedefs::slice_typedef(key),
                ctypes::key_c(key) + "* ptr; maka_int len; } "@ + ("Slice_"@ + key) + ";"@,
            )
            &&& text::has_part(
                typedefs::vec_typedef(key),
                ctypes::key_c(key) + "* data; maka_int len; maka_int cap; } "@ + ("Vec_"@ + key)
                    + ";"@,
            )
        }),
        ctypes::ty_c(
            sym,
            HType::FnPtr { ret: Box::new(ret), params, ret_key, param_keys },
        ) == "Callable_"@ + ctypes::sig_key(ret_key@, param_keys@),
        traits@.len() > 0 ==> ctypes::ty_c(sym, HType::Dyn { traits }) == "Dyn_"@
            + text::ident(traits@[0]@),
{
    let key = ctypes::ty_key(sym, elem);
    let s = "Slice_"@ + key;
    let v = "Vec_"@ + key;
    let a = typedefs::typedef_mark(s) + "{ "@;
    let p = ctypes::key_c(key) + "* ptr; maka_int len; } "@ + s + ";"@;
    assert(typedefs::slice_typedef(key) =~= ""@ + a + p + "\n"@);
    text::lemma_part_last(""@ + a, p);
    text::lemma_part_kept(""@ + a + p, "\n"@, p);
    let c = typedefs::typedef_mark(v) + "{ "@;
    let q = ctypes::key_c(key) + "* data; maka_int len; maka_int cap; } "@ + v + ";"@;
    assert(typedefs::vec_typedef(key) =~= ""@ + c + q + "\n"@);
    text::lemma_part_last(""@ + c, q);
    text::lemma_part_kept(""@ + c + q, "\n"@, q);
}

/// A function takes its parameters in their order, each under the name of its local.
pub proof fn law_signature_lists_the_parameters(sym: SymTab, f: HFunc, i: int)
    requires
        0 <= i < f.params@.len(),
    ensures
        ({
            let list = ctypes::param_decls(sym, f, f.params@.len());
            let id = f.params@[i];
            let li = f.locals@[id.0 as int];
            &&& list.len() == f.params@.len()
            &&& list[i] == ctypes::decl_c(sym, li.ty, statement_laws::numbered(f, id))
            &&& exists|head: Seq<char>|
                ctypes::signature_c(sym, f) == #[trigger] (head + ("("@ + text::joined(list, ", "@)
                    + ")"@))
        }),
        sym.the_sig(f.id).name@ == "main"@ && sym.the_sig(f.id).logic is None ==> ctypes::defined_c(
            sym.the_sig(f.id),
        ) == "maka_main"@,
        !(sym.the_sig(f.id).name@ == "main"@ && sym.the_sig(f.id).logic is None)
            ==> ctypes::defined_c(
            sym.the_sig(f.id),
        ) == text::ident(sym.the_sig(f.id).c_name@),
{
    let list = ctypes::param_decls(sym, f, f.params@.len());
    let sig = sym.the_sig(f.id);
    let linkage = if !sig.is_pub && !sig.is_extern
        && !ctypes::is_main(sig) { "static "@ } else { ""@ };
    let head = linkage + ctypes::ret_c(sym, f.ret) + " "@ + ctypes::defined_c(sig);
    assert(ctypes::signature_c(sym, f) =~= head + ("("@ + text::joined(list, ", "@) + ")"@));
}

/// A function is its signature, then, where it is a closure, its captured values, then its
/// body.
pub proof fn law_function_is_its_body(d: nat, sym: SymTab, owns: Set<Seq<char>>, st: St, f: HFunc)
    requires
        !sym.the_sig(f.id).is_inline,
    ensures
        exists|mid: Seq<char>|
            functions::func_c(d, sym, owns, st, f).text == #[trigger] (text::line_c(""@,
                ctypes::signature_c(sym, f) + " {"@)
                + mid + lowered::block_c(d, functions::body_cx(sym, owns, f), st, f.body).text
                    + text::line_c(""@, "}"@)
                + text::line_c(""@, ""@)) && (!text::begins(sym.the_sig(f.id).name@,
                    "__lambda_cap_"@) ==> mid
                == ""@),
{
    let cx = functions::body_cx(sym, owns, f);
    let unpacked = match functions::unpacked_env(sym.the_sig(f.id), f) {
        Some(id) => functions::captures_c(
            sym,
            f,
            sym.the_struct(id),
            cx.ind,
            functions::first_capture(f) as nat,
            functions::numbered_locals(f) as nat,
        ),
        None => ""@,
    };
    assert(functions::func_c(d, sym, owns, st, f).text == text::line_c(""@, ctypes::signature_c(sym,
        f) + " {"@) + unpacked
        + lowered::block_c(d, cx, st, f.body).text + text::line_c(""@, "}"@) + text::line_c(""@,
            ""@));
}

/// A closure's function starts by reading each captured local from the member of the same name
/// of its environment; other locals are left alone.
pub proof fn law_captures_are_unpacked(
    sym: SymTab,
    f: HFunc,
    env: StructInfo,
    ind: Seq<char>,
    from: nat,
    n: nat,
)
    requires
        from <= n < f.locals@.len(),
        n < u32::MAX,
    ensures
        ({
            let li = f.locals@[n as int];
            let before = functions::captures_c(sym, f, env, ind, from, n);
            let captured_here = exists|i: int|
                0 <= i < env.fields@.len() && (#[trigger] env.fields@[i]).name@ == li.name@;
            functions::captures_c(sym, f, env, ind, from, n + 1) == (if captured_here {
                before + text::line_c(
                    ind,
                    ctypes::ty_c(sym, li.ty) + " "@ + statement_laws::numbered(f, LocalId(n as u32))
                        + " = __env_0->"@
                        + text::ident(li.name@) + ";"@,
                )
            } else {
                before
            })
        }),
        functions::captures_c(sym, f, env, ind, from, from) == ""@,
{
    let k = n + 1;
    assert((k - 1) as nat == n);
}

/// The members of a struct and of the payload of a variant are its fields, in their order and
/// under their names.
pub proof fn law_members_are_the_fields(sym: SymTab, fields: Seq<FieldInfo>, n: nat)
    requires
        n < fields.len(),
    ensures
        ({
            let f = fields[n as int];
            let member_line = text::line_c("    "@, ctypes::decl_c(sym, f.ty, text::ident(f.name@))
                + ";"@);
            &&& definitions::struct_fields(sym, fields, n + 1) == definitions::struct_fields(sym,
                fields, n) + member_line
            &&& definitions::payload_fields(sym, fields, n + 1) == definitions::payload_fields(sym,
                fields, n) + member_line
        }),
        definitions::struct_fields(sym, fields, 0) == ""@,
        definitions::payload_fields(sym, fields, 0) == ""@,
{
    reveal_strlit("");
    reveal_strlit("    ");
    assert(text::deeper_c(""@) =~= "    "@);
    let k = n + 1;
    assert((k - 1) as nat == n);
}

/// The definitions of a struct and of an enum with payloads.
pub proof fn law_type_definitions(sym: SymTab, s: StructInfo, e: EnumInfo)
    ensures
        definitions::struct_def(sym, s) == text::line_c(""@, "struct "@ + text::ident(s.name@)
            + " {"@) + definitions::struct_fields(
            sym,
            s.fields@,
            s.fields@.len(),
        ) + text::line_c(""@, "};"@),
        definitions::enum_def(sym, e) == definitions::payload_structs(sym, e, e.variants@.len())
            + text::line_c(
            ""@,
            "struct "@ + text::ident(e.name@) + " {"@,
        ) + text::line_c(text::deeper_c(""@), "maka_int tag;"@) + (text::line_c(text::deeper_c(""@),
            "union {"@)
            + definitions::payload_members(e, e.variants@.len()) + text::line_c(text::deeper_c(""@),
                "} payload;"@))
            + text::line_c(""@, "};"@),
{
    let u = text::line_c(text::deeper_c(""@), "union {"@);
    let m = definitions::payload_members(e, e.variants@.len());
    let z = text::line_c(text::deeper_c(""@), "} payload;"@);
    let h = definitions::payload_structs(sym, e, e.variants@.len()) + text::line_c(
        ""@,
        "struct "@ + text::ident(e.name@) + " {"@,
    ) + text::line_c(text::deeper_c(""@), "maka_int tag;"@);
    assert(h + u + m + z =~= h + (u + m + z));
}

/// Every variant that carries values has a struct for them and a member of the union with the
/// variant's name; a variant that carries none has neither. Every variant has its tag.
pub proof fn law_variants_have_their_members(sym: SymTab, e: EnumInfo, n: nat)
    requires
        n < e.variants@.len(),
    ensures
        ({
            let v = e.variants@[n as int];
            let en = text::ident(e.name@);
            let vn = text::ident(v.name@);
            let t = en + "_"@ + vn + "_Payload"@;
            &&& v.fields@.len() == 0 ==> definitions::payload_structs(sym, e, n + 1)
                == definitions::payload_structs(sym, e, n)
                && definitions::payload_members(e, n + 1) == definitions::payload_members(e, n)
            &&& v.fields@.len() > 0 ==> definitions::payload_structs(sym, e, n + 1)
                == definitions::payload_structs(sym, e, n)
                + text::line_c(""@, "typedef struct {"@) + definitions::payload_fields(sym,
                    v.fields@, v.fields@.len())
                + text::line_c(""@, "} "@ + t + ";"@)
            &&& v.fields@.len() > 0 ==> definitions::payload_members(e, n + 1)
                == definitions::payload_members(e, n) + text::line_c(
                text::deeper_c(text::deeper_c(""@)),
                t + " "@ + vn + ";"@,
            )
            &&& definitions::variant_decls(e, n + 1) == definitions::variant_decls(e, n)
                + text::line_c(
                ""@,
                if value_laws::some_values(e) {
                    "#define "@ + en + "__"@ + vn + "_TAG "@ + text::decimal(v.tag as int)
                } else {
                    "static const "@ + en + " "@ + en + "__"@ + vn + " = "@
                        + text::decimal(v.tag as int)
                        + ";"@
                },
            )
        }),
{
    let k = n + 1;
    assert((k - 1) as nat == n);
    let v = e.variants@[n as int];
    let en = text::ident(e.name@);
    let vn = text::ident(v.name@);
    let t = en + "_"@ + vn + "_Payload"@;
    reveal_strlit("_Payload;");
    reveal_strlit("_Payload");
    reveal_strlit(";");
    reveal_strlit("_Payload ");
    reveal_strlit(" ");
    assert("_Payload;"@ =~= "_Payload"@ + ";"@);
    assert("_Payload "@ =~= "_Payload"@ + " "@);
    assert("} "@ + en + "_"@ + vn + "_Payload;"@ =~= "} "@ + t + ";"@);
    assert(en + "_"@ + vn + "_Payload "@ + vn + ";"@ =~= t + " "@ + vn + ";"@);
    if !e.simple() {
        let i = choose|i: int|
            0 <= i < e.variants@.len() && (#[trigger] e.variants@[i]).fields@.len() != 0;
        assert(e.variants@[i].fields@.len() > 0);
    }
}

/// The method that a trait's table has for a struct: one of that name whose first parameter is
/// a reference to that struct.
pub proof fn law_table_entry_is_the_method(
    sym: SymTab,
    l: LogicInfo,
    name: Seq<char>,
    id: StructId,
    from: nat,
)
    ensures
        dispatch::impl_from(sym, l, name, id, from) matches Some(sig) ==> {
            &&& sig.name@ == name
            &&& sig.param_tys@.len() > 0
            &&& sig.param_tys@[0] matches HType::Ref { inner, .. } && *inner == HType::Struct(id)
            &&& exists|i: int|
                from <= i < l.funcs@.len() && sym.sigs@[(#[trigger] l.funcs@[i]).0 as int] == sig
        },
        dispatch::method_from(sym, l, name, from) matches Some(sig) ==> {
            &&& sig.name@ == name
            &&& exists|i: int|
                from <= i < l.funcs@.len() && sym.sigs@[(#[trigger] l.funcs@[i]).0 as int] == sig
        },
        dispatch::impl_from(sym, l, name, id, from) is None ==> forall|i: int|
            from <= i < l.funcs@.len() ==> {
                let sig = sym.sigs@[(#[trigger] l.funcs@[i]).0 as int];
                !(sig.name@ == name && dispatch::is_method_of(sig, id))
            },
    decreases l.funcs@.len() - from,
{
    if from < l.funcs@.len() {
        law_table_entry_is_the_method(sym, l, name, id, from + 1);
        assert(sym.sigs@[l.funcs@[from as int].0 as int] == sym.the_sig(l.funcs@[from as int]));
    }
}

/// A table has an entry for each method that the struct implements, under the method's name
/// and with its C function; the table's type has a slot for each, with the parameter types in
/// their order behind the untyped object.
pub proof fn law_tables_and_slots(
    sym: SymTab,
    l: LogicInfo,
    id: StructId,
    ind: Seq<char>,
    names: Seq<Seq<char>>,
    n: nat,
    sig: FuncSig,
    i: int,
)
    requires
        n < names.len(),
    ensures
        dispatch::entries_text(sym, l, id, ind, names, n + 1) == dispatch::entries_text(sym, l, id,
            ind, names, n) + (
        match dispatch::impl_from(sym, l, names[n as int], id, 0) {
            Some(s) => text::line_c(ind, "."@ + text::ident(names[n as int]) + " = (void*)"@
                + s.c_name@ + ","@),
            None => ""@,
        }),
        dispatch::slots_text(sym, l, ind, names, n + 1) == dispatch::slots_text(sym, l, ind, names,
            n) + (
        match dispatch::method_from(sym, l, names[n as int], 0) {
            Some(s) => dispatch::slot_text(sym, ind, names[n as int], s),
            None => ""@,
        }),
        0 < i < sig.param_tys@.len() ==> ({
            let p = dispatch::slot_params(sym, sig.param_tys@, sig.param_tys@.len());
            &&& p.len() == sig.param_tys@.len()
            &&& p[0] == "void*"@
            &&& p[i] == ctypes::ty_c(sym, sig.param_tys@[i])
            &&& dispatch::slot_text(sym, ind, names[n as int], sig) == text::line_c(
                ind,
                ctypes::ret_c(sym, sig.ret) + " (*"@ + text::ident(names[n as int]) + ")("@
                    + text::joined(p, ", "@)
                    + ");"@,
            )
        }),
{
    let k = n + 1;
    assert((k - 1) as nat == n);
    reveal_strlit("");
    let e = dispatch::entries_text(sym, l, id, ind, names, n);
    let s = dispatch::slots_text(sym, l, ind, names, n);
    assert(e + ""@ =~= e);
    assert(s + ""@ =~= s);
}

/// The code type of a function value takes the environment and then the parameters, in their
/// order.
pub proof fn law_callable_types(sym: SymTab, key: Seq<char>, sig: (HType, Vec<HType>), i: int)
    requires
        0 <= i < sig.1@.len(),
    ensures
        ({
            let p = dispatch::raw_params(sym, sig.1@, sig.1@.len());
            &&& p.len() == sig.1@.len() + 1
            &&& p[0] == "void*"@
            &&& p[i + 1] == ctypes::ty_c(sym, sig.1@[i])
            &&& dispatch::callable_text(sym, key, sig) == text::line_c(
                ""@,
                "typedef "@ + ctypes::ret_c(sym, sig.0) + " (*fn_"@ + key + "_raw)("@
                    + text::joined(p, ", "@)
                    + ");"@,
            ) + text::line_c(
                ""@,
                "typedef struct { fn_"@ + key + "_raw code; void* env; } Callable_"@ + key + ";"@,
            )
        }),
{
    lemma_raw_params(sym, sig.1@, sig.1@.len(), i);
}

proof fn lemma_raw_params(sym: SymTab, tys: Seq<HType>, n: nat, i: int)
    requires
        n <= tys.len(),
    ensures
        dispatch::raw_params(sym, tys, n).len() == n + 1,
        dispatch::raw_params(sym, tys, n)[0] == "void*"@,
        0 <= i < n ==> dispatch::raw_params(sym, tys, n)[i + 1] == ctypes::ty_c(sym, tys[i]),
    decreases n,
{
    if n > 0 {
        lemma_raw_params(sym, tys, (n - 1) as nat, i);
    }
}

proof fn lemma_tramp_lists(
    sym: SymTab,
    tys: Seq<HType>,
    from: int,
    first: Seq<Seq<char>>,
    n: nat,
    i: int,
)
    ensures
        dispatch::tramp_params(sym, tys, from, n).len() == n + 1,
        dispatch::tramp_params(sym, tys, from, n)[0] == "void* __env"@,
        0 <= i < n ==> dispatch::tramp_params(sym, tys, from, n)[i + 1] == ctypes::decl_c(
            sym,
            tys[from + i],
            "__a"@ + text::decimal(i),
        ),
        dispatch::tramp_args(first, n).len() == first.len() + n,
        0 <= i < n ==> dispatch::tramp_args(first, n)[first.len() + i] == "__a"@ + text::decimal(i),
        forall|j: int| 0 <= j < first.len() ==> dispatch::tramp_args(first, n)[j]
            == #[trigger] first[j],
    decreases n,
{
    if n > 0 {
        lemma_tramp_lists(sym, tys, from, first, (n - 1) as nat, i);
    }
}

/// The trampoline of a function takes the environment, which it ignores, and the parameters,
/// and passes the parameters on in their order; what the function gives back, it gives back.
pub proof fn law_trampoline_passes_on(sym: SymTab, sig: FuncSig, linked: bool, i: int)
    requires
        0 <= i < sig.param_tys@.len(),
    ensures
        ({
            let n = sig.param_tys@.len();
            let params = dispatch::tramp_params(sym, sig.param_tys@, 0, n);
            let args = dispatch::tramp_args(Seq::empty(), n);
            let run = ctypes::callee_c(sig) + "("@ + text::joined(args, ", "@) + ");"@;
            let head = text::line_c(
                ""@,
                "static "@ + ctypes::ret_c(sym, sig.ret) + " __tramp_"@ + ctypes::callee_c(sig)
                    + "("@ + text::joined(
                    params,
                    ", "@,
                ) + ") {"@,
            ) + text::line_c(text::deeper_c(""@), "(void)__env;"@);
            let text = dispatch::tramp_text(sym, sig, linked);
            &&& params.len() == n + 1 && args.len() == n
            &&& params[i + 1] == ctypes::decl_c(sym, sig.param_tys@[i], args[i])
            &&& args[i] == "__a"@ + text::decimal(i)
            &&& !(sig.ret is Unit) ==> text == head + text::line_c(text::deeper_c(""@), "return "@
                + run)
                + text::line_c(""@, "}"@)
            &&& sig.ret is Unit && linked ==> text == head + (text::line_c(text::deeper_c(""@), run)
                + text::line_c(
                text::deeper_c(""@),
                "return;"@,
            )) + text::line_c(""@, "}"@)
        }),
{
    lemma_tramp_lists(sym, sig.param_tys@, 0, Seq::empty(), sig.param_tys@.len(), i);
}

/// The trampoline of a closure passes its environment on as the struct that it is, and then
/// the parameters in their order.
pub proof fn law_closure_trampoline_passes_on(sym: SymTab, sig: FuncSig, env: StructId, i: int)
    requires
        1 <= i < sig.param_tys@.len(),
    ensures
        ({
            let n = (sig.param_tys@.len() - 1) as nat;
            let params = dispatch::tramp_params(sym, sig.param_tys@, 1, n);
            let args = dispatch::tramp_args(seq!["__es"@], n);
            let lifted = text::ident(sig.c_name@);
            let name = text::ident(sym.structs@[env.0 as int].name@);
            let run = lifted + "("@ + text::joined(args, ", "@) + ");"@;
            let head = text::line_c(
                ""@,
                "static "@ + ctypes::ret_c(sym, sig.ret) + " "@ + lifted + "_closure_trampoline("@
                    + text::joined(
                    params,
                    ", "@,
                ) + ") {"@,
            ) + text::line_c(text::deeper_c(""@), name + "* __es = ("@ + name + "*)__env;"@);
            let text = dispatch::closure_tramp_text(sym, sig, env);
            &&& params.len() == n + 1 && args.len() == n + 1
            &&& args[0] == "__es"@
            &&& args[i] == "__a"@ + text::decimal(i - 1)
            &&& params[i] == ctypes::decl_c(sym, sig.param_tys@[i], args[i])
            &&& !(sig.ret is Unit) ==> text == head + text::line_c(text::deeper_c(""@), "return "@
                + run)
                + text::line_c(""@, "}"@)
            &&& sig.ret is Unit ==> text == head + (text::line_c(text::deeper_c(""@), run)
                + text::line_c(
                text::deeper_c(""@),
                "return;"@,
            )) + text::line_c(""@, "}"@)
        }),
{
    let n = (sig.param_tys@.len() - 1) as nat;
    lemma_tramp_lists(sym, sig.param_tys@, 1, seq!["__es"@], n, i - 1);
    assert(dispatch::tramp_args(seq!["__es"@], n)[0] == seq!["__es"@][0]);
}

/// A foreign function is declared with its parameters in their order, under their names where
/// they have some, and with `...` at the end where it takes more.
pub proof fn law_foreign_parameters(sym: SymTab, sig: FuncSig, i: int)
    requires
        0 <= i < sig.param_tys@.len(),
    ensures
        ({
            let p = module::foreign_params(sym, sig, sig.param_tys@.len());
            &&& p.len() == sig.param_tys@.len()
            &&& p[i] == ctypes::ty_c(sym, sig.param_tys@[i]) + " "@
                + (if i < sig.param_names@.len() {
                sig.param_names@[i]@
            } else {
                "p"@ + text::decimal(i)
            })
            &&& module::foreign_list(sym, sig) == (if sig.is_variadic {
                text::joined(p.push("..."@), ", "@)
            } else {
                text::joined(p, ", "@)
            })
        }),
{
    let p = module::foreign_params(sym, sig, sig.param_tys@.len());
    value_laws::law_joined_keeps_order(p, seq!["..."@], ", "@);
    assert(p.push("..."@) =~= p + seq!["..."@]);
    assert(text::joined(seq!["..."@], ", "@) == seq!["..."@][0]);
    let list = text::joined(p, ", "@);
    reveal_strlit("");
    assert(list + (", "@ + "..."@) =~= list + ", "@ + "..."@);
    assert(list + ""@ =~= list);
}

/// The entry point runs the program's `main`: with the command line where it takes it, and
/// with its result as the status where it has one.
pub proof fn law_entry_point_runs_main(sym: SymTab, from: nat)
    ensures
        module::main_from(sym, from) matches Some(f) ==> f.name@ == "main"@ && sym.the_sig(
            f.id,
        ).type_params@.len() == 0 && (exists|i: int|
            from <= i < sym.funcs@.len() && #[trigger] sym.funcs@[i] == f),
        module::main_from(sym, from) is None ==> forall|i: int|
            from <= i < sym.funcs@.len() ==> !((#[trigger] sym.funcs@[i]).name@ == "main"@
                && module::is_concrete(sym, sym.funcs@[i])),
    decreases sym.funcs@.len() - from,
{
    if from < sym.funcs@.len() {
        law_entry_point_runs_main(sym, from + 1);
        assert(sym.funcs@[from as int] == sym.funcs@[from as int]);
    }
}

/// What the entry point hands over and gives back.
pub proof fn law_entry_point_by_signature(sym: SymTab, f: HFunc)
    requires
        module::main_from(sym, 0) == Some(f),
    ensures
        ({
            let sig = sym.the_sig(f.id);
            let takes = sig.param_tys@.len() == 1 && (sig.param_tys@[0] matches HType::Slice {
                elem,
                ..
            } && *elem is Str);
            let run = if takes { "maka_main(args);"@ } else { "maka_main();"@ };
            let text = module::main_text(sym);
            &&& f.ret is Int ==> text::has_part(text, "return (int)"@ + run)
            &&& !(f.ret is Int) ==> text::has_part(text, " "@ + run + " return 0; }"@)
        }),
{
    lemma_entry_texts();
    let text = module::main_text(sym);
    reveal_strlit("");
    let sig = sym.the_sig(f.id);
    let t = if module::takes_args(sig) {
        if f.ret is Int { MAIN_ARGS_STATUS@ } else { MAIN_ARGS@ }
    } else {
        if f.ret is Int { MAIN_STATUS@ } else { MAIN_PLAIN@ }
    };
    let run = if module::takes_args(sig) { "maka_main(args);"@ } else { "maka_main();"@ };
    let part = if f.ret is Int { "return (int)"@ + run } else { " "@ + run + " return 0; }"@ };
    assert(text == text::line_c(""@, t));
    text::lemma_part_after(""@, t, part);
    text::lemma_part_kept(""@ + t, "\n"@, part);
}

proof fn lemma_entry_texts()
    ensures
        text::has_part(MAIN_ARGS_STATUS@, "return (int)"@ + "maka_main(args);"@),
        text::has_part(MAIN_ARGS@, " "@ + "maka_main(args);"@ + " return 0; }"@),
        text::has_part(MAIN_STATUS@, "return (int)"@ + "maka_main();"@),
        text::has_part(MAIN_PLAIN@, " "@ + "maka_main();"@ + " return 0; }"@),
{
    lemma_entry_args_status();
    lemma_entry_args();
    lemma_entry_status();
    lemma_entry_plain();
}

proof fn lemma_entry_args_status()
    ensures
        text::has_part(MAIN_ARGS_STATUS@, "return (int)"@ + "maka_main(args);"@),
{
    reveal_strlit("int main(int argc, char** argv) { __maka_rt_set_args(argc, argv); Slice_str args = { .ptr = (const char**)argv, .len = (maka_int)argc }; return (int)maka_main(args); }");
    reveal_strlit("int main(int argc, char** argv) { __maka_rt_set_args(argc, argv); Slice_str args = { .ptr = (const char**)argv, .len = (maka_int)argc }; ");
    reveal_strlit("return (int)");
    reveal_strlit("maka_main(args);");
    reveal_strlit(" }");
    let part = "return (int)"@ + "maka_main(args);"@;
    let before = "int main(int argc, char** argv) { __maka_rt_set_args(argc, argv); Slice_str args = { .ptr = (const char**)argv, .len = (maka_int)argc }; "@;
    assert(MAIN_ARGS_STATUS@ =~= before + part + " }"@);
    text::lemma_part_last(before, part);
    text::lemma_part_kept(before + part, " }"@, part);
}

proof fn lemma_entry_args()
    ensures
        text::has_part(MAIN_ARGS@, " "@ + "maka_main(args);"@ + " return 0; }"@),
{
    reveal_strlit("int main(int argc, char** argv) { __maka_rt_set_args(argc, argv); Slice_str args = { .ptr = (const char**)argv, .len = (maka_int)argc }; maka_main(args); return 0; }");
    reveal_strlit("int main(int argc, char** argv) { __maka_rt_set_args(argc, argv); Slice_str args = { .ptr = (const char**)argv, .len = (maka_int)argc };");
    reveal_strlit(" ");
    reveal_strlit("maka_main(args);");
    reveal_strlit(" return 0; }");
    let part = " "@ + "maka_main(args);"@ + " return 0; }"@;
    let before = "int main(int argc, char** argv) { __maka_rt_set_args(argc, argv); Slice_str args = { .ptr = (const char**)argv, .len = (maka_int)argc };"@;
    assert(MAIN_ARGS@ =~= before + part);
    text::lemma_part_last(before, part);
}

proof fn lemma_entry_status()
    ensures
        text::has_part(MAIN_STATUS@, "return (int)"@ + "maka_main();"@),
{
    reveal_strlit("int main(int argc, char** argv) { __maka_rt_set_args(argc, argv); return (int)maka_main(); }");
    reveal_strlit("int main(int argc, char** argv) { __maka_rt_set_args(argc, argv); ");
    reveal_strlit("return (int)");
    reveal_strlit("maka_main();");
    reveal_strlit(" }");
    let part = "return (int)"@ + "maka_main();"@;
    let before = "int main(int argc, char** argv) { __maka_rt_set_args(argc, argv); "@;
    assert(MAIN_STATUS@ =~= before + part + " }"@);
    text::lemma_part_last(before, part);
    text::lemma_part_kept(before + part, " }"@, part);
}

proof fn lemma_entry_plain()
    ensures
        text::has_part(MAIN_PLAIN@, " "@ + "maka_main();"@ + " return 0; }"@),
{
    reveal_strlit("int main(int argc, char** argv) { __maka_rt_set_args(argc, argv); maka_main(); return 0; }");
    reveal_strlit("int main(int argc, char** argv) { __maka_rt_set_args(argc, argv);");
    reveal_strlit(" ");
    reveal_strlit("maka_main();");
    reveal_strlit(" return 0; }");
    let part = " "@ + "maka_main();"@ + " return 0; }"@;
    let before = "int main(int argc, char** argv) { __maka_rt_set_args(argc, argv);"@;
    assert(MAIN_PLAIN@ =~= before + part);
    text::lemma_part_last(before, part);
}

} // verus!
