//! C spellings of types: type keys, type names, declarations and signatures.
use vstd::prelude::*;

use crate::hir::{FuncSig, HFunc, HType, LocalId, LocalInfo, SymTab};
use crate::text;
use crate::text::{
    begins_at, c_ident, cat2, cat3, cat4, cat7, chars_of, dec_i64, dec_u64, join, own, str_eq,
    string_from,
};

verus! {

/// The C name of a local: its mangled name and its number.
pub open spec fn local_c(id: LocalId, name: Seq<char>) -> Seq<char> {
    text::ident(name) + "_"@ + text::decimal(id.0 as int)
}

/// Writes the C name of a local.
pub fn local_name(id: LocalId, name: &str) -> (r: String)
    ensures
        r@ == local_c(id, name@),
{
    cat3(&c_ident(name), "_", &dec_u64(id.0 as u64))
}

/// The C name of a local of an inline function inside the expansion `tag`.
pub open spec fn inline_local_c(id: LocalId, tag: Seq<char>) -> Seq<char> {
    "_il_"@ + text::decimal(id.0 as int) + "_"@ + tag
}

/// Writes the C name of a local inside an expansion.
pub fn inline_local_name(id: LocalId, tag: &str) -> (r: String)
    ensures
        r@ == inline_local_c(id, tag@),
{
    cat4("_il_", &dec_u64(id.0 as u64), "_", tag)
}

/// A character of a signature key: quotes and plus signs become letters.
pub open spec fn sig_key_char(c: char) -> char {
    if c == '\'' {
        'x'
    } else if c == '+' {
        'p'
    } else {
        c
    }
}

/// The keys of the return type and of the first `n` parameters, each followed by
/// an underscore.
pub open spec fn raw_sig_key(ret_key: Seq<char>, param_keys: Seq<String>, n: nat) -> Seq<char>
    decreases n,
{
    if n == 0 || n > param_keys.len() {
        ret_key + "_"@
    } else {
        raw_sig_key(ret_key, param_keys, (n - 1) as nat) + param_keys[n - 1]@ + "_"@
    }
}

/// The key of a function signature, fit for the C names `Callable_KEY` and `fn_KEY_raw`.
pub open spec fn sig_key(ret_key: Seq<char>, param_keys: Seq<String>) -> Seq<char> {
    raw_sig_key(ret_key, param_keys, param_keys.len()).map_values(|c: char| sig_key_char(c))
}

/// The key of a function signature that leaves out the first `skip` parameters.
pub fn fn_sig_key(ret_key: &str, param_keys: &Vec<String>, skip: usize) -> (r: String)
    requires
        skip <= param_keys@.len(),
    ensures
        r@ == sig_key(ret_key@, param_keys@.skip(skip as int)),
{
    let ghost keys: Seq<String> = param_keys@.skip(skip as int);
    let mut raw: String = cat2(ret_key, "_");
    let mut i: usize = skip;
    while i < param_keys.len()
        invariant
            skip <= i <= param_keys@.len(),
            keys == param_keys@.skip(skip as int),
            raw@ == raw_sig_key(ret_key@, keys, (i - skip) as nat),
        decreases param_keys@.len() - i,
    {
        raw.append(&param_keys[i]);
        raw.append("_");
        i += 1;
    }
    let mut out: String = String::new();
    let ghost f = |c: char| sig_key_char(c);
    for c in it: raw.chars()
        invariant
            it.seq() == raw@,
            f == (|c: char| sig_key_char(c)),
            out@ == raw@.take(it.index()).map_values(f),
    {
        assert(raw@.take(it.index() + 1).map_values(f) =~= raw@.take(it.index()).map_values(f).push(
            sig_key_char(c),
        ));
        if c == '\'' {
            out.push('x');
        } else if c == '+' {
            out.push('p');
        } else {
            out.push(c);
        }
    }
    assert(raw@.take(raw@.len() as int) =~= raw@);
    out
}

/// The C spelling of a fixed-width integer.
pub open spec fn sized_int_c(signed: bool, bits: u32) -> Seq<char> {
    if bits == 0 {
        if signed { "intptr_t"@ } else { "uintptr_t"@ }
    } else {
        (if signed { ""@ } else { "u"@ }) + "int"@ + text::decimal(bits as int) + "_t"@
    }
}

fn sized_int(signed: bool, bits: u32) -> (r: String)
    ensures
        r@ == sized_int_c(signed, bits),
{
    if bits == 0 {
        if signed { own("intptr_t") } else { own("uintptr_t") }
    } else {
        cat4(if signed { "" } else { "u" }, "int", &dec_u64(bits as u64), "_t")
    }
}

/// The C spelling of a fixed-width float.
pub open spec fn sized_float_c(bits: u32) -> Seq<char> {
    if bits == 32 {
        "float"@
    } else if bits == 64 {
        "double"@
    } else {
        "_unknown_f"@ + text::decimal(bits as int)
    }
}

fn sized_float(bits: u32) -> (r: String)
    ensures
        r@ == sized_float_c(bits),
{
    if bits == 32 {
        own("float")
    } else if bits == 64 {
        own("double")
    } else {
        cat2("_unknown_f", &dec_u64(bits as u64))
    }
}

/// Every struct and enum that the key of `t` names is in the symbol table.
pub open spec fn key_ok(sym: SymTab, t: HType) -> bool
    decreases t,
{
    match t {
        HType::Struct(id) => sym.has_struct(id),
        HType::Enum(id) => sym.has_enum(id),
        HType::Ref { inner, .. } | HType::Ptr { inner, .. } | HType::RawPtr { inner, .. }
        | HType::OwnPtr { inner, .. } => key_ok(sym, *inner),
        HType::Heap { inner } => key_ok(sym, *inner),
        HType::Array { elem, .. } => key_ok(sym, *elem),
        HType::Slice { elem, .. } => key_ok(sym, *elem),
        HType::Vec { elem } => key_ok(sym, *elem),
        HType::FnPtr { ret, params, .. } => key_ok(sym, *ret) && keys_ok(sym, params, params@.len()),
        HType::AssocType { on, .. } => key_ok(sym, *on),
        HType::GenericPattern { args, .. } => keys_ok(sym, args, args@.len()),
        _ => true,
    }
}

/// [`key_ok`] of the first `n` types.
pub open spec fn keys_ok(sym: SymTab, ts: Vec<HType>, n: nat) -> bool
    decreases ts, n,
{
    if n == 0 || n > ts@.len() {
        true
    } else {
        keys_ok(sym, ts, (n - 1) as nat) && key_ok(sym, ts@[n - 1])
    }
}

/// The key of a type: an identifier that tells it apart in typedef names.
pub open spec fn ty_key(sym: SymTab, t: HType) -> Seq<char>
    decreases t,
{
    match t {
        HType::Int => "maka_int"@,
        HType::SizedInt { signed, bits } => sized_int_c(signed, bits),
        HType::Float => "maka_float"@,
        HType::SizedFloat { bits } => sized_float_c(bits),
        HType::Bool => "bool"@,
        HType::Char => "maka_char"@,
        HType::Unit => "maka_unit"@,
        HType::Struct(id) => text::ident(sym.the_struct(id).name@),
        HType::Enum(id) => text::ident(sym.the_enum(id).name@),
        HType::Ref { inner, .. } | HType::Ptr { inner, .. } | HType::RawPtr { inner, .. }
        | HType::OwnPtr { inner, .. } => "p_"@ + ty_key(sym, *inner),
        HType::Heap { inner } => "h_"@ + ty_key(sym, *inner),
        HType::Array { len, elem } => "a"@ + text::decimal(len as int) + "_"@ + ty_key(sym, *elem),
        HType::Slice { elem, .. } => "Slice_"@ + ty_key(sym, *elem),
        HType::Vec { elem } => "Vec_"@ + ty_key(sym, *elem),
        HType::Str => "str"@,
        HType::NullT => "nullptr_t"@,
        HType::Dyn { traits } => "Dyn_"@ + text::joined(text::views(traits@), "_"@),
        HType::FnPtr { ret, params, .. } => fn_key(
            sym,
            "fn_"@ + ty_key(sym, *ret) + "_"@,
            params,
            params@.len(),
        ),
        HType::TyVar(n) => "T_"@ + n@,
        HType::AssocType { on, segment } => "AT_"@ + ty_key(sym, *on) + "_"@ + segment@,
        HType::GenericPattern { template_name, args } => "GP_"@ + template_name@ + "__"@ + text::joined(
            ty_keys(sym, args, args@.len()),
            "_"@,
        ),
        HType::RustOpaque(_) => "p_maka_unit"@,
    }
}

/// `start`, then the key of each of the first `n` types and an underscore.
pub open spec fn fn_key(sym: SymTab, start: Seq<char>, ts: Vec<HType>, n: nat) -> Seq<char>
    decreases ts, n,
{
    if n == 0 || n > ts@.len() {
        start
    } else {
        fn_key(sym, start, ts, (n - 1) as nat) + ty_key(sym, ts@[n - 1]) + "_"@
    }
}

/// The keys of the first `n` types.
pub open spec fn ty_keys(sym: SymTab, ts: Vec<HType>, n: nat) -> Seq<Seq<char>>
    decreases ts, n,
{
    if n == 0 || n > ts@.len() {
        Seq::empty()
    } else {
        ty_keys(sym, ts, (n - 1) as nat).push(ty_key(sym, ts@[n - 1]))
    }
}

/// Where all keys of a list can be made, each can.
pub proof fn lemma_keys_ok(sym: SymTab, ts: Vec<HType>, n: nat, i: int)
    requires
        keys_ok(sym, ts, n),
        0 <= i < n <= ts@.len(),
    ensures
        key_ok(sym, ts@[i]),
    decreases n,
{
    if i < n - 1 {
        lemma_keys_ok(sym, ts, (n - 1) as nat, i);
    }
}

/// Writes the key of a type.
pub fn type_key(sym: &SymTab, t: &HType) -> (r: String)
    requires
        key_ok(*sym, *t),
    ensures
        r@ == ty_key(*sym, *t),
    decreases t,
{
    match t {
        HType::Int => own("maka_int"),
        HType::SizedInt { signed, bits } => sized_int(*signed, *bits),
        HType::Float => own("maka_float"),
        HType::SizedFloat { bits } => sized_float(*bits),
        HType::Bool => own("bool"),
        HType::Char => own("maka_char"),
        HType::Unit => own("maka_unit"),
        HType::Struct(id) => c_ident(&sym.struct_info(*id).name),
        HType::Enum(id) => c_ident(&sym.enum_info(*id).name),
        HType::Ref { inner, .. } | HType::Ptr { inner, .. } | HType::RawPtr { inner, .. }
        | HType::OwnPtr { inner, .. } => cat2("p_", &type_key(sym, inner)),
        HType::Heap { inner } => cat2("h_", &type_key(sym, inner)),
        HType::Array { len, elem } => cat4("a", &dec_i64(*len), "_", &type_key(sym, elem)),
        HType::Slice { elem, .. } => cat2("Slice_", &type_key(sym, elem)),
        HType::Vec { elem } => cat2("Vec_", &type_key(sym, elem)),
        HType::Str => own("str"),
        HType::NullT => own("nullptr_t"),
        HType::Dyn { traits } => cat2("Dyn_", &join(traits, "_")),
        HType::FnPtr { ret, params, .. } => {
            let mut s: String = cat3("fn_", &type_key(sym, ret), "_");
            let ghost start: Seq<char> = s@;
            let mut i: usize = 0;
            while i < params.len()
                invariant
                    i <= params@.len(),
                    keys_ok(*sym, *params, params@.len()),
                    s@ == fn_key(*sym, start, *params, i as nat),
                    decreases_to!(t => params),
                decreases params@.len() - i,
            {
                proof {
                    lemma_keys_ok(*sym, *params, params@.len(), i as int);
                }
                s.append(&type_key(sym, &params[i]));
                s.append("_");
                i += 1;
            }
            s
        },
        HType::TyVar(n) => cat2("T_", n),
        HType::AssocType { on, segment } => cat4("AT_", &type_key(sym, on), "_", segment),
        HType::GenericPattern { template_name, args } => {
            let mut keys: Vec<String> = Vec::new();
            let mut i: usize = 0;
            assert(text::views(keys@) =~= ty_keys(*sym, *args, 0));
            while i < args.len()
                invariant
                    i <= args@.len(),
                    keys_ok(*sym, *args, args@.len()),
                    text::views(keys@) == ty_keys(*sym, *args, i as nat),
                    decreases_to!(t => args),
                decreases args@.len() - i,
            {
                proof {
                    lemma_keys_ok(*sym, *args, args@.len(), i as int);
                }
                let k: String = type_key(sym, &args[i]);
                let ghost before: Seq<String> = keys@;
                keys.push(k);
                assert(text::views(keys@) =~= text::views(before).push(k@));
                i += 1;
            }
            cat4("GP_", template_name, "__", &join(&keys, "_"))
        },
        HType::RustOpaque(_) => own("p_maka_unit"),
    }
}

/// The C type that a key stands for: pointer prefixes become stars.
pub open spec fn key_c(k: Seq<char>) -> Seq<char>
    decreases k.len(),
{
    proof {
        reveal_strlit("p_");
        reveal_strlit("pm_");
        reveal_strlit("pc_");
    }
    if text::begins(k, "p_"@) {
        key_c(k.skip(2)) + "*"@
    } else if text::begins(k, "pm_"@) {
        key_c(k.skip(3)) + "*"@
    } else if text::begins(k, "pc_"@) {
        "const "@ + key_c(k.skip(3)) + "*"@
    } else if k == "str"@ {
        "const char*"@
    } else {
        k
    }
}

fn key_type(k: &Vec<char>, at: usize, p: &Vec<char>, pm: &Vec<char>, pc: &Vec<char>) -> (r: String)
    requires
        at <= k@.len(),
        p@ == "p_"@,
        pm@ == "pm_"@,
        pc@ == "pc_"@,
    ensures
        r@ == key_c(k@.skip(at as int)),
    decreases k@.len() - at,
{
    let ghost rest: Seq<char> = k@.skip(at as int);
    let total: usize = k.len();
    proof {
        assert(total == k@.len());
        reveal_strlit("p_");
        reveal_strlit("pm_");
        reveal_strlit("pc_");
        assert(rest.len() >= 2 ==> rest.skip(2) =~= k@.skip(at + 2));
        assert(rest.len() >= 3 ==> rest.skip(3) =~= k@.skip(at + 3));
    }
    if begins_at(k, at, p) {
        return cat2(&key_type(k, at + 2, p, pm, pc), "*");
    }
    if begins_at(k, at, pm) {
        return cat2(&key_type(k, at + 3, p, pm, pc), "*");
    }
    if begins_at(k, at, pc) {
        return cat3("const ", &key_type(k, at + 3, p, pm, pc), "*");
    }
    let name: String = string_from(k, at);
    if str_eq(&name, "str") {
        own("const char*")
    } else {
        name
    }
}

/// Writes the C type that a key stands for.
pub fn c_type_from_key(k: &str) -> (r: String)
    ensures
        r@ == key_c(k@),
{
    let v: Vec<char> = chars_of(k);
    assert(v@.skip(0) =~= v@);
    key_type(&v, 0, &chars_of("p_"), &chars_of("pm_"), &chars_of("pc_"))
}

/// Everything that the C spelling of `t` reads is there: the structs and enums
/// that it names, and the first trait of a trait object.
pub open spec fn ty_ok(sym: SymTab, t: HType) -> bool
    decreases t,
{
    match t {
        HType::Struct(id) => sym.has_struct(id),
        HType::Enum(id) => sym.has_enum(id),
        HType::Ref { inner, .. } | HType::Ptr { inner, .. } | HType::RawPtr { inner, .. }
        | HType::OwnPtr { inner, .. } => match *inner {
            HType::Array { elem, .. } => ty_ok(sym, *elem),
            _ => ty_ok(sym, *inner),
        },
        HType::Heap { inner } => match *inner {
            HType::Array { elem, .. } => ty_ok(sym, *elem),
            _ => ty_ok(sym, *inner),
        },
        HType::Array { elem, .. } => ty_ok(sym, *elem),
        HType::Slice { elem, .. } => key_ok(sym, *elem),
        HType::Vec { elem } => key_ok(sym, *elem),
        HType::Dyn { traits } => traits@.len() > 0,
        _ => true,
    }
}

/// The C spelling of a type.
pub open spec fn ty_c(sym: SymTab, t: HType) -> Seq<char>
    decreases t,
{
    match t {
        HType::Int => "maka_int"@,
        HType::SizedInt { signed, bits } => sized_int_c(signed, bits),
        HType::Float => "maka_float"@,
        HType::SizedFloat { bits } => sized_float_c(bits),
        HType::Bool => "bool"@,
        HType::Char => "maka_char"@,
        HType::Unit => "maka_unit"@,
        HType::Str => "const char*"@,
        HType::NullT => "void*"@,
        HType::Struct(id) => text::ident(sym.the_struct(id).name@),
        HType::Enum(id) => text::ident(sym.the_enum(id).name@),
        HType::Ref { inner, .. } | HType::Ptr { inner, .. } | HType::RawPtr { inner, .. }
        | HType::OwnPtr { inner, .. } => match *inner {
            // The fat pointer of a trait object already holds the indirection.
            HType::Dyn { .. } => ty_c(sym, *inner),
            // A pointer to a fixed array is a pointer to its element.
            HType::Array { elem, .. } => ty_c(sym, *elem) + "*"@,
            _ => ty_c(sym, *inner) + "*"@,
        },
        HType::Heap { inner } => match *inner {
            // An owned vector is the vector struct itself.
            HType::Vec { .. } => ty_c(sym, *inner),
            HType::Array { elem, .. } => ty_c(sym, *elem) + "*"@,
            _ => ty_c(sym, *inner) + "*"@,
        },
        HType::Array { len, elem } => ty_c(sym, *elem) + "["@ + text::decimal(len as int) + "]"@,
        HType::Slice { elem, .. } => "Slice_"@ + ty_key(sym, *elem),
        HType::Vec { elem } => "Vec_"@ + ty_key(sym, *elem),
        HType::Dyn { traits } => "Dyn_"@ + text::ident(traits@[0]@),
        HType::FnPtr { ret_key, param_keys, .. } => "Callable_"@ + sig_key(ret_key@, param_keys@),
        HType::TyVar(_) => "void*"@,
        HType::AssocType { .. } => "void*"@,
        HType::GenericPattern { .. } => "void*"@,
        HType::RustOpaque(_) => "void*"@,
    }
}

/// The C name of a local of `f`: tagged inside an inline expansion.
pub open spec fn scoped_c(f: HFunc, tag: Option<Seq<char>>, id: LocalId) -> Seq<char> {
    match tag {
        Some(t) => inline_local_c(id, t),
        None => local_c(id, f.locals@[id.0 as int].name@),
    }
}

/// Writes the C name of a local of `f`.
pub fn scoped_name(f: &HFunc, tag: Option<&str>, id: LocalId) -> (r: String)
    requires
        tag is Some || id.0 < f.locals@.len(),
    ensures
        r@ == scoped_c(*f, opt_view(tag), id),
{
    match tag {
        Some(t) => inline_local_name(id, t),
        None => local_name(id, &f.locals[id.0 as usize].name),
    }
}

/// The text of an optional string.
pub open spec fn opt_view(s: Option<&str>) -> Option<Seq<char>> {
    match s {
        Some(t) => Some(t@),
        None => None,
    }
}

/// The signature key of a function type, in C names.
pub fn whole_sig_key(ret_key: &str, param_keys: &Vec<String>) -> (r: String)
    ensures
        r@ == sig_key(ret_key@, param_keys@),
{
    assert(param_keys@.skip(0) =~= param_keys@);
    fn_sig_key(ret_key, param_keys, 0)
}

/// Writes the C spelling of a type.
pub fn c_type(sym: &SymTab, t: &HType) -> (r: String)
    requires
        ty_ok(*sym, *t),
    ensures
        r@ == ty_c(*sym, *t),
    decreases t,
{
    match t {
        HType::Int => own("maka_int"),
        HType::SizedInt { signed, bits } => sized_int(*signed, *bits),
        HType::Float => own("maka_float"),
        HType::SizedFloat { bits } => sized_float(*bits),
        HType::Bool => own("bool"),
        HType::Char => own("maka_char"),
        HType::Unit => own("maka_unit"),
        HType::Str => own("const char*"),
        HType::NullT => own("void*"),
        HType::Struct(id) => c_ident(&sym.struct_info(*id).name),
        HType::Enum(id) => c_ident(&sym.enum_info(*id).name),
        HType::Ref { inner, .. } | HType::Ptr { inner, .. } | HType::RawPtr { inner, .. }
        | HType::OwnPtr { inner, .. } => match &**inner {
            HType::Dyn { .. } => c_type(sym, inner),
            HType::Array { elem, .. } => cat2(&c_type(sym, elem), "*"),
            _ => cat2(&c_type(sym, inner), "*"),
        },
        HType::Heap { inner } => match &**inner {
            HType::Vec { .. } => c_type(sym, inner),
            HType::Array { elem, .. } => cat2(&c_type(sym, elem), "*"),
            _ => cat2(&c_type(sym, inner), "*"),
        },
        HType::Array { len, elem } => cat4(&c_type(sym, elem), "[", &dec_i64(*len), "]"),
        HType::Slice { elem, .. } => cat2("Slice_", &type_key(sym, elem)),
        HType::Vec { elem } => cat2("Vec_", &type_key(sym, elem)),
        HType::Dyn { traits } => cat2("Dyn_", &c_ident(&traits[0])),
        HType::FnPtr { ret_key, param_keys, .. } => cat2(
            "Callable_",
            &whole_sig_key(ret_key, param_keys),
        ),
        HType::TyVar(_) => own("void*"),
        HType::AssocType { .. } => own("void*"),
        HType::GenericPattern { .. } => own("void*"),
        HType::RustOpaque(_) => own("void*"),
    }
}

/// A declaration of `name` with type `t`; the bounds of an array, and of the arrays that it
/// is made of, follow the name.
pub open spec fn decl_c(sym: SymTab, t: HType, name: Seq<char>) -> Seq<char>
    decreases t,
{
    match t {
        HType::Array { len, elem } => decl_c(
            sym,
            *elem,
            name + "["@ + text::decimal(len as int) + "]"@,
        ),
        _ => ty_c(sym, t) + " "@ + name,
    }
}

/// Writes the declarator of a name of a type.
pub fn c_decl(sym: &SymTab, t: &HType, name: &str) -> (r: String)
    requires
        ty_ok(*sym, *t),
    ensures
        r@ == decl_c(*sym, *t, name@),
    decreases t,
{
    match t {
        HType::Array { len, elem } => c_decl(sym, elem, &cat4(name, "[", &dec_i64(*len), "]")),
        _ => cat3(&c_type(sym, t), " ", name),
    }
}

/// The C spelling of a return type.
pub open spec fn ret_c(sym: SymTab, t: HType) -> Seq<char> {
    match t {
        HType::Unit => "void"@,
        _ => ty_c(sym, t),
    }
}

/// Writes a return type.
pub fn c_ret_type(sym: &SymTab, t: &HType) -> (r: String)
    requires
        ty_ok(*sym, *t),
    ensures
        r@ == ret_c(*sym, *t),
{
    match t {
        HType::Unit => own("void"),
        _ => c_type(sym, t),
    }
}

/// The program's entry point, as opposed to a method that is also called `main`.
pub open spec fn is_main(sig: FuncSig) -> bool {
    sig.name@ == "main"@ && sig.logic is None
}

/// Tests for the entry point.
pub fn sig_is_main(sig: &FuncSig) -> (r: bool)
    ensures
        r == is_main(*sig),
{
    match sig.logic {
        None => str_eq(&sig.name, "main"),
        Some(_) => false,
    }
}

/// The C name of a function with a body.
pub open spec fn defined_c(sig: FuncSig) -> Seq<char> {
    if is_main(sig) {
        "maka_main"@
    } else {
        text::ident(sig.c_name@)
    }
}

/// The C name under which a function is defined.
pub fn defined_name(sig: &FuncSig) -> (r: String)
    ensures
        r@ == defined_c(*sig),
{
    if sig_is_main(sig) {
        own("maka_main")
    } else {
        c_ident(&sig.c_name)
    }
}

/// The C name under which a function is called; foreign names stay as they are.
pub open spec fn callee_c(sig: FuncSig) -> Seq<char> {
    if sig.is_extern {
        sig.c_name@
    } else {
        defined_c(sig)
    }
}

/// The C name under which a function is called.
pub fn callee_name(sig: &FuncSig) -> (r: String)
    ensures
        r@ == callee_c(*sig),
{
    if sig.is_extern {
        own(&sig.c_name)
    } else {
        defined_name(sig)
    }
}

/// The parameters of a function are locals of it with spellable types.
pub open spec fn params_ok(sym: SymTab, f: HFunc) -> bool {
    forall|i: int|
        0 <= i < f.params@.len() ==> {
            &&& (#[trigger] f.params@[i]).0 < f.locals@.len()
            &&& ty_ok(sym, f.locals@[f.params@[i].0 as int].ty)
        }
}

/// The C signature of `f` can be spelled.
pub open spec fn signature_ok(sym: SymTab, f: HFunc) -> bool {
    &&& sym.has_sig(f.id)
    &&& ty_ok(sym, f.ret)
    &&& params_ok(sym, f)
}

/// The declarations of the first `n` parameters.
pub open spec fn param_decls(sym: SymTab, f: HFunc, n: nat) -> Seq<Seq<char>> {
    Seq::new(
        n,
        |i: int|
            {
                let id = f.params@[i];
                let li = f.locals@[id.0 as int];
                decl_c(sym, li.ty, local_c(id, li.name@))
            },
    )
}

/// The C signature of a function with a body. Functions that no other
/// translation unit may call have internal linkage.
pub open spec fn signature_c(sym: SymTab, f: HFunc) -> Seq<char> {
    let sig = sym.the_sig(f.id);
    let linkage = if !sig.is_pub && !sig.is_extern && !is_main(sig) { "static "@ } else { ""@ };
    linkage + ret_c(sym, f.ret) + " "@ + defined_c(sig) + "("@ + (if f.params@.len() == 0 {
        "void"@
    } else {
        text::joined(param_decls(sym, f, f.params@.len()), ", "@)
    }) + ")"@
}

/// Writes the C signature of a function.
pub fn func_signature(sym: &SymTab, f: &HFunc) -> (r: String)
    requires
        signature_ok(*sym, *f),
    ensures
        r@ == signature_c(*sym, *f),
{
    let sig: &FuncSig = sym.func_sig(f.id);
    let main: bool = sig_is_main(sig);
    let linkage: &str = if !sig.is_pub && !sig.is_extern && !main { "static " } else { "" };
    let params: String = if f.params.len() == 0 {
        own("void")
    } else {
        let mut parts: Vec<String> = Vec::new();
        let mut i: usize = 0;
        assert(text::views(parts@) =~= param_decls(*sym, *f, 0));
        while i < f.params.len()
            invariant
                i <= f.params@.len(),
                params_ok(*sym, *f),
                text::views(parts@) == param_decls(*sym, *f, i as nat),
            decreases f.params@.len() - i,
        {
            let id: LocalId = f.params[i];
            let li: &LocalInfo = &f.locals[id.0 as usize];
            let d: String = c_decl(sym, &li.ty, &local_name(id, &li.name));
            let ghost before: Seq<String> = parts@;
            parts.push(d);
            assert(text::views(parts@) =~= text::views(before).push(d@));
            assert(param_decls(*sym, *f, (i + 1) as nat) =~= param_decls(*sym, *f, i as nat).push(d@));
            i += 1;
        }
        join(&parts, ", ")
    };
    cat7(
        linkage,
        &c_ret_type(sym, &f.ret),
        " ",
        &defined_name(sig),
        "(",
        &params,
        ")",
    )
}

/// Locals with different numbers have different C names, whatever they are called.
pub proof fn law_local_names_differ(a: LocalId, b: LocalId, x: Seq<char>, y: Seq<char>)
    requires
        local_c(a, x) == local_c(b, y),
    ensures
        a == b,
{
    text::lemma_numbered_suffix(text::ident(x), text::ident(y), a.0 as nat, b.0 as nat);
}

/// Two locals of inline expansions share a C name only if they are the same local of the
/// same expansion.
pub proof fn law_inline_names_differ(a: LocalId, b: LocalId, s: Seq<char>, t: Seq<char>)
    requires
        inline_local_c(a, s) == inline_local_c(b, t),
    ensures
        a == b,
        s == t,
{
    text::lemma_numbered_prefix("_il_"@, s, t, a.0 as nat, b.0 as nat);
}

/// A signature key holds neither quotes nor plus signs.
pub proof fn law_sig_key_is_clean(ret_key: Seq<char>, param_keys: Seq<String>)
    ensures
        forall|i: int|
            0 <= i < sig_key(ret_key, param_keys).len() ==> {
                &&& #[trigger] sig_key(ret_key, param_keys)[i] != '\''
                &&& sig_key(ret_key, param_keys)[i] != '+'
            },
{
}

/// The key of the type can be read back as its C spelling: it is a name in C, or a chain of
/// pointers to one.
pub open spec fn key_is_name(sym: SymTab, t: HType) -> bool
    decreases t,
{
    match t {
        HType::Int | HType::SizedInt { .. } | HType::Float | HType::SizedFloat { .. }
        | HType::Bool | HType::Char | HType::Unit | HType::Str => true,
        HType::Struct(id) => plain_name(text::ident(sym.the_struct(id).name@)),
        HType::Enum(id) => plain_name(text::ident(sym.the_enum(id).name@)),
        HType::Ref { inner, .. } | HType::Ptr { inner, .. } | HType::RawPtr { inner, .. }
        | HType::OwnPtr { inner, .. } => !(*inner is Dyn) && !(*inner is Array) && key_is_name(
            sym,
            *inner,
        ),
        HType::Slice { .. } | HType::Vec { .. } => true,
        HType::Dyn { traits } => text::joined(text::views(traits@), "_"@) == text::ident(traits@[0]@),
        _ => false,
    }
}

/// A name that is not read as a pointer key or as the key of strings.
pub open spec fn plain_name(k: Seq<char>) -> bool {
    !text::begins(k, "p_"@) && !text::begins(k, "pm_"@) && !text::begins(k, "pc_"@) && k != "str"@
}

proof fn lemma_plain_start(k: Seq<char>)
    requires
        k.len() > 0,
        k[0] != 'p',
        k[0] != 's',
    ensures
        key_c(k) == k,
{
    reveal_strlit("p_");
    reveal_strlit("pm_");
    reveal_strlit("pc_");
    reveal_strlit("str");
    if k.len() >= 2 {
        assert(k.take(2)[0] == k[0]);
        assert("p_"@[0] == 'p');
    }
    if k.len() >= 3 {
        assert(k.take(3)[0] == k[0]);
        assert("pm_"@[0] == 'p');
        assert("pc_"@[0] == 'p');
    }
    assert("str"@[0] == 's');
}

/// The typedef of a slice or vector spells its elements as C does, wherever the key of the
/// element type is a name in C or a pointer to one.
pub proof fn law_key_spells_type(sym: SymTab, t: HType)
    requires
        key_is_name(sym, t),
    ensures
        key_c(ty_key(sym, t)) == ty_c(sym, t),
    decreases t,
{
    reveal_strlit("maka_int");
    reveal_strlit("maka_float");
    reveal_strlit("maka_char");
    reveal_strlit("maka_unit");
    reveal_strlit("bool");
    reveal_strlit("str");
    reveal_strlit("p_");
    reveal_strlit("pm_");
    reveal_strlit("pc_");
    match t {
        HType::Int | HType::Float | HType::Bool | HType::Char | HType::Unit => {
            lemma_plain_start(ty_key(sym, t));
        },
        HType::SizedInt { signed, bits } => {
            reveal_strlit("intptr_t");
            reveal_strlit("uintptr_t");
            reveal_strlit("");
            reveal_strlit("u");
            reveal_strlit("int");
            let k = sized_int_c(signed, bits);
            if bits == 0 {
                assert(k[0] == 'i' || k[0] == 'u');
            } else if signed {
                assert(k[0] == "int"@[0]);
            } else {
                assert(k[0] == "u"@[0]);
            }
            lemma_plain_start(k);
        },
        HType::SizedFloat { bits } => {
            reveal_strlit("float");
            reveal_strlit("double");
            reveal_strlit("_unknown_f");
            let k = sized_float_c(bits);
            if bits != 32 && bits != 64 {
                assert(k[0] == "_unknown_f"@[0]);
            }
            lemma_plain_start(k);
        },
        HType::Str => {
            let k = "str"@;
            assert(k[0] == 's');
            assert(k.take(2)[0] == 's');
            assert(k.take(3)[0] == 's');
            assert("p_"@[0] == 'p');
            assert("pm_"@[0] == 'p');
            assert("pc_"@[0] == 'p');
        },
        HType::Struct(_) | HType::Enum(_) => {},
        HType::Ref { inner, .. } | HType::Ptr { inner, .. } | HType::RawPtr { inner, .. }
        | HType::OwnPtr { inner, .. } => {
            law_key_spells_type(sym, *inner);
            let k = ty_key(sym, t);
            assert(k.take(2) =~= "p_"@);
            assert(k.skip(2) =~= ty_key(sym, *inner));
        },
        HType::Slice { elem, .. } => {
            reveal_strlit("Slice_");
            let k = ty_key(sym, t);
            assert(k[0] == "Slice_"@[0]);
            lemma_plain_start(k);
        },
        HType::Vec { elem } => {
            reveal_strlit("Vec_");
            let k = ty_key(sym, t);
            assert(k[0] == "Vec_"@[0]);
            lemma_plain_start(k);
        },
        HType::Dyn { traits } => {
            reveal_strlit("Dyn_");
            let k = ty_key(sym, t);
            assert(k[0] == "Dyn_"@[0]);
            lemma_plain_start(k);
        },
        _ => {},
    }
}

} // verus!
