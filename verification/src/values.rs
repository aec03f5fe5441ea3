//! C expressions put together from the text of their parts.
use vstd::prelude::*;

use crate::ctypes;
use crate::ctypes::{c_type, callee_name, fn_sig_key, scoped_name, type_key, whole_sig_key};
use crate::hir::{
    EnumId, EnumInfo, FieldInfo, FuncSig, HBinOp, HFunc, HType, HUnOp, LocalId, StructInfo,
    SymTab, VariantInfo,
};
use crate::operators;
use crate::operators::binop_c;
use crate::sorted::SortedMap;
use crate::text;
use crate::text::{
    c_ident, cat10, cat11, cat2, cat3, cat4, cat5, cat7, cat9, dec_i64, dec_u64, join, no_parts,
    own, push_part, str_eq,
};

verus! {

/// The signature key of a function type, in C names.
fn callable_key(ty: &HType) -> (r: String)
    ensures
        r@ == callable_key_text(*ty),
{
    match ty {
        HType::FnPtr { ret_key, param_keys, .. } => whole_sig_key(ret_key, param_keys),
        _ => own("x"),
    }
}

/// The key of a function type.
pub open spec fn callable_key_text(ty: HType) -> Seq<char> {
    match ty {
        HType::FnPtr { ret_key, param_keys, .. } => ctypes::sig_key(ret_key@, param_keys@),
        _ => "x"@,
    }
}

/// A call through a value of the type yields no value.
pub open spec fn returns_unit(ty: HType) -> bool {
    match ty {
        HType::FnPtr { ret, .. } => *ret is Unit,
        _ => true,
    }
}

/// The environment of a callable and the first `n` arguments.
pub open spec fn env_args(args: Seq<Seq<char>>, n: nat) -> Seq<char>
    decreases n,
{
    if n == 0 {
        "__c.env"@
    } else {
        env_args(args, (n - 1) as nat) + ", "@ + args[n - 1]
    }
}

/// A call through a function value.
pub open spec fn indirect_text(ty: HType, c: Seq<char>, args: Seq<Seq<char>>) -> Seq<char> {
    "(__extension__ ({ Callable_"@ + callable_key_text(ty) + " __c = ("@ + c + "); __c.code("@
        + env_args(args, args.len()) + ")"@ + (if returns_unit(ty) {
        ", MAKA_UNIT"@
    } else {
        ""@
    }) + "; }))"@
}

/// Writes a call through a function value.
pub fn indirect_call(ty: &HType, c: &str, args: &Vec<String>) -> (r: String)
    ensures
        r@ == indirect_text(*ty, c@, text::views(args@)),
{
    let ghost texts: Seq<Seq<char>> = text::views(args@);
    let mut all: String = own("__c.env");
    let mut i: usize = 0;
    while i < args.len()
        invariant
            i <= args@.len(),
            texts == text::views(args@),
            all@ == env_args(texts, i as nat),
        decreases args@.len() - i,
    {
        all.append(", ");
        all.append(&args[i]);
        i += 1;
    }
    let unit: bool = match ty {
        HType::FnPtr { ret, .. } => match &**ret {
            HType::Unit => true,
            _ => false,
        },
        _ => true,
    };
    cat9(
        "(__extension__ ({ Callable_",
        &callable_key(ty),
        " __c = (",
        c,
        "); __c.code(",
        &all,
        ")",
        if unit { ", MAKA_UNIT" } else { "" },
        "; }))",
    )
}

/// The enum type is in the symbol table.
pub open spec fn enum_ty_ok(sym: SymTab, ty: HType) -> bool {
    match ty {
        HType::Enum(id) => sym.has_enum(id),
        _ => true,
    }
}

/// A value of the type is its own tag.
pub open spec fn is_simple_enum(sym: SymTab, ty: HType) -> bool {
    match ty {
        HType::Enum(id) => sym.the_enum(id).simple(),
        _ => false,
    }
}

/// The tag of an enum value.
pub open spec fn enum_tag_text(sym: SymTab, ty: HType, s: Seq<char>) -> Seq<char> {
    if is_simple_enum(sym, ty) {
        "(maka_int)("@ + s + ")"@
    } else {
        "(maka_int)(("@ + s + ").tag)"@
    }
}

/// Writes the tag of an enum value.
pub fn enum_tag(sym: &SymTab, ty: &HType, s: &str) -> (r: String)
    requires
        enum_ty_ok(*sym, *ty),
    ensures
        r@ == enum_tag_text(*sym, *ty, s@),
{
    let simple: bool = match ty {
        HType::Enum(id) => sym.enum_info(*id).is_simple(),
        _ => false,
    };
    if simple {
        cat3("(maka_int)(", s, ")")
    } else {
        cat3("(maka_int)((", s, ").tag)")
    }
}

/// The length behind a borrow or an owning pointer.
pub open spec fn inner_len_text(ty: HType, s: Seq<char>) -> Seq<char> {
    match ty {
        HType::Vec { .. } => "("@ + s + ").len"@,
        HType::Array { len, .. } => "(maka_int)"@ + text::decimal(len as int),
        _ => "0"@,
    }
}

fn inner_len(ty: &HType, s: &str) -> (r: String)
    ensures
        r@ == inner_len_text(*ty, s@),
{
    match ty {
        HType::Vec { .. } => cat3("(", s, ").len"),
        HType::Array { len, .. } => cat2("(maka_int)", &dec_i64(*len)),
        _ => own("0"),
    }
}

/// The length of a slice, vector or array.
pub open spec fn slice_len_text(ty: HType, s: Seq<char>) -> Seq<char> {
    match ty {
        HType::Slice { .. } => "("@ + s + ").len"@,
        HType::Heap { inner } => inner_len_text(*inner, s),
        HType::Ref { inner, .. } | HType::Ptr { inner, .. } => inner_len_text(*inner, s),
        _ => inner_len_text(ty, s),
    }
}

/// Writes a length.
pub fn slice_len(ty: &HType, s: &str) -> (r: String)
    ensures
        r@ == slice_len_text(*ty, s@),
{
    match ty {
        HType::Slice { .. } => cat3("(", s, ").len"),
        HType::Heap { inner } => inner_len(inner, s),
        HType::Ref { inner, .. } | HType::Ptr { inner, .. } => inner_len(inner, s),
        _ => inner_len(ty, s),
    }
}

/// Initializers of the first `n` fields; those that have no text get zero.
pub open spec fn field_inits(
    fields: Seq<FieldInfo>,
    texts: Seq<Seq<char>>,
    n: nat,
) -> Seq<Seq<char>> {
    Seq::new(
        n,
        |i: int|
            "."@ + text::ident(fields[i].name@) + " = "@ + (if i < texts.len() { texts[i] } else { "0"@ }),
    )
}

/// The parameters of a lifted lambda after its environment.
pub open spec fn after_env(keys: Seq<String>) -> Seq<String> {
    if keys.len() == 0 { keys } else { keys.skip(1) }
}

/// A closure: a fresh environment, and the trampoline that unpacks it.
pub open spec fn closure_text(sig: FuncSig, env: StructInfo, texts: Seq<Seq<char>>) -> Seq<char> {
    let name = text::ident(env.name@);
    let key = ctypes::sig_key(sig.ret_key@, after_env(sig.param_keys@));
    "(__extension__ ({ "@ + name + "* __env = ("@ + name + "*)malloc(sizeof("@ + name
        + ")); *__env = ("@ + name + "){ "@ + text::joined(
        field_inits(env.fields@, texts, env.fields@.len()),
        ", "@,
    ) + " }; (Callable_"@ + key + "){ .code = (fn_"@ + key + "_raw)"@ + text::ident(sig.c_name@)
        + "_closure_trampoline, .env = __env }; }))"@
}

/// Writes a closure.
pub fn closure_value(sig: &FuncSig, env: &StructInfo, texts: &Vec<String>) -> (r: String)
    ensures
        r@ == closure_text(*sig, *env, text::views(texts@)),
{
    let ghost tv: Seq<Seq<char>> = text::views(texts@);
    let mut parts: Vec<String> = no_parts();
    let mut i: usize = 0;
    assert(field_inits(env.fields@, tv, 0) =~= Seq::<Seq<char>>::empty());
    while i < env.fields.len()
        invariant
            i <= env.fields@.len(),
            tv == text::views(texts@),
            text::views(parts@) == field_inits(env.fields@, tv, i as nat),
        decreases env.fields@.len() - i,
    {
        let v: &str = if i < texts.len() { &texts[i] } else { "0" };
        let p: String = cat4(".", &c_ident(&env.fields[i].name), " = ", v);
        assert(field_inits(env.fields@, tv, (i + 1) as nat) =~= field_inits(
            env.fields@,
            tv,
            i as nat,
        ).push(p@));
        push_part(&mut parts, p);
        i += 1;
    }
    let name: String = c_ident(&env.name);
    let skip: usize = if sig.param_keys.len() == 0 { 0 } else { 1 };
    let key: String = fn_sig_key(&sig.ret_key, &sig.param_keys, skip);
    assert(sig.param_keys@.len() == 0 ==> sig.param_keys@.skip(0) =~= sig.param_keys@);
    let mut s: String = cat9(
        "(__extension__ ({ ",
        &name,
        "* __env = (",
        &name,
        "*)malloc(sizeof(",
        &name,
        ")); *__env = (",
        &name,
        "){ ",
    );
    s.append(&join(&parts, ", "));
    s.append(" }; (Callable_");
    s.append(&key);
    s.append("){ .code = (fn_");
    s.append(&key);
    s.append("_raw)");
    s.append(&c_ident(&sig.c_name));
    s.append("_closure_trampoline, .env = __env }; }))");
    s
}

/// A function as a value: its trampoline and no environment.
pub open spec fn fn_ref_text(sig: FuncSig) -> Seq<char> {
    let key = ctypes::sig_key(sig.ret_key@, sig.param_keys@);
    "((Callable_"@ + key + "){ .code = (fn_"@ + key + "_raw)__tramp_"@ + ctypes::callee_c(sig)
        + ", .env = NULL })"@
}

/// Writes a function as a value.
pub fn fn_ref(sig: &FuncSig) -> (r: String)
    ensures
        r@ == fn_ref_text(*sig),
{
    let key: String = whole_sig_key(&sig.ret_key, &sig.param_keys);
    cat7(
        "((Callable_",
        &key,
        "){ .code = (fn_",
        &key,
        "_raw)__tramp_",
        &callee_name(sig),
        ", .env = NULL })",
    )
}

/// A variant without payload.
pub open spec fn variant_text(e: EnumInfo, v: VariantInfo) -> Seq<char> {
    if e.simple() {
        text::ident(e.name@) + "__"@ + text::ident(v.name@)
    } else {
        "(("@ + text::ident(e.name@) + "){ .tag = "@ + text::decimal(v.tag as int) + " })"@
    }
}

/// Writes a variant without payload.
pub fn variant_value(e: &EnumInfo, v: &VariantInfo) -> (r: String)
    ensures
        r@ == variant_text(*e, *v),
{
    if e.is_simple() {
        cat3(&c_ident(&e.name), "__", &c_ident(&v.name))
    } else {
        cat5("((", &c_ident(&e.name), "){ .tag = ", &dec_i64(v.tag), " })")
    }
}

/// A variant with its payload; one that has none is as [`variant_text`] says.
pub open spec fn payload_text(e: EnumInfo, v: VariantInfo, parts: Seq<Seq<char>>) -> Seq<char> {
    if v.fields@.len() == 0 {
        variant_text(e, v)
    } else {
        "(("@ + text::ident(e.name@) + "){ .tag = "@ + text::decimal(v.tag as int) + ", .payload."@ + text::ident(
            v.name@,
        ) + " = { "@ + text::joined(parts, ", "@) + " } })"@
    }
}

/// Writes a variant with payload.
pub fn payload_value(e: &EnumInfo, v: &VariantInfo, parts: &Vec<String>) -> (r: String)
    ensures
        r@ == payload_text(*e, *v, text::views(parts@)),
{
    if v.fields.len() == 0 {
        variant_value(e, v)
    } else {
        cat9(
            "((",
            &c_ident(&e.name),
            "){ .tag = ",
            &dec_i64(v.tag),
            ", .payload.",
            &c_ident(&v.name),
            " = { ",
            &join(parts, ", "),
            " } })",
        )
    }
}

/// The operator compares two values of one enum.
pub open spec fn same_enum(op: HBinOp, l: HType, r: HType) -> Option<EnumId> {
    match (l, r) {
        (HType::Enum(a), HType::Enum(b)) => if a == b && (op is Eq || op is Ne) {
            Some(a)
        } else {
            None
        },
        _ => None,
    }
}

/// The enum whose values are compared is in the table.
pub open spec fn bin_ok(sym: SymTab, op: HBinOp, l: HType, r: HType) -> bool {
    match same_enum(op, l, r) {
        Some(id) => sym.has_enum(id),
        None => true,
    }
}

/// A binary operation. Enums with payload are compared by their tags.
pub open spec fn bin_text(
    sym: SymTab,
    op: HBinOp,
    lt: HType,
    rt: HType,
    l: Seq<char>,
    r: Seq<char>,
) -> Seq<char> {
    let tagged = match same_enum(op, lt, rt) {
        Some(id) => !sym.the_enum(id).simple(),
        None => false,
    };
    if tagged {
        "(("@ + l + ").tag "@ + operators::binop_text(op) + " ("@ + r + ").tag)"@
    } else {
        plain_bin_text(op, l, r)
    }
}

/// A binary operation on the operands as they are.
pub open spec fn plain_bin_text(op: HBinOp, l: Seq<char>, r: Seq<char>) -> Seq<char> {
    "(("@ + l + ") "@ + operators::binop_text(op) + " ("@ + r + "))"@
}

/// Writes a binary operation on the operands as they are.
pub fn plain_bin(op: HBinOp, l: &str, r: &str) -> (s: String)
    ensures
        s@ == plain_bin_text(op, l@, r@),
{
    cat7("((", l, ") ", binop_c(op), " (", r, "))")
}

/// Writes a binary operation.
pub fn bin_value(sym: &SymTab, op: HBinOp, lt: &HType, rt: &HType, l: &str, r: &str) -> (s: String)
    requires
        bin_ok(*sym, op, *lt, *rt),
    ensures
        s@ == bin_text(*sym, op, *lt, *rt, l@, r@),
{
    let compares: bool = match op {
        HBinOp::Eq | HBinOp::Ne => true,
        _ => false,
    };
    let tagged: bool = match (lt, rt) {
        (HType::Enum(a), HType::Enum(b)) => if a.0 == b.0 && compares {
            !sym.enum_info(*a).is_simple()
        } else {
            false
        },
        _ => false,
    };
    if tagged {
        cat7("((", l, ").tag ", binop_c(op), " (", r, ").tag)")
    } else {
        plain_bin(op, l, r)
    }
}

/// A unary operation.
pub open spec fn un_text(op: HUnOp, v: Seq<char>) -> Seq<char> {
    match op {
        HUnOp::Neg => "(-("@ + v + "))"@,
        HUnOp::Not => "(!("@ + v + "))"@,
    }
}

/// Writes a unary operation.
pub fn un_value(op: HUnOp, v: &str) -> (r: String)
    ensures
        r@ == un_text(op, v@),
{
    match op {
        HUnOp::Neg => cat3("(-(", v, "))"),
        HUnOp::Not => cat3("(!(", v, "))"),
    }
}

/// The type is some pointer to a fixed array, which is a pointer to its elements in C.
pub open spec fn points_to_array(t: HType) -> bool {
    match t {
        HType::Ref { inner, .. } | HType::Ptr { inner, .. } | HType::RawPtr { inner, .. }
        | HType::OwnPtr { inner, .. } => *inner is Array,
        HType::Heap { inner } => *inner is Array,
        _ => false,
    }
}

fn is_array(t: &HType) -> (r: bool)
    ensures
        r == (*t is Array),
{
    match t {
        HType::Array { .. } => true,
        _ => false,
    }
}

/// The value that a pointer of type `t` leads to.
pub open spec fn unwrap_text(t: HType, s: Seq<char>) -> Seq<char> {
    if points_to_array(t) { s } else { "(*("@ + s + "))"@ }
}

/// Writes the target of a pointer.
pub fn unwrap_value(t: &HType, s: String) -> (r: String)
    ensures
        r@ == unwrap_text(*t, s@),
{
    let array: bool = match t {
        HType::Ref { inner, .. } | HType::Ptr { inner, .. } | HType::RawPtr { inner, .. }
        | HType::OwnPtr { inner, .. } => is_array(inner),
        HType::Heap { inner } => is_array(inner),
        _ => false,
    };
    if array {
        s
    } else {
        cat3("(*(", &s, "))")
    }
}

/// The address of a place of type `t`. A trait object is its own address, and an
/// array decays to a pointer to its elements.
pub open spec fn addr_text(t: HType, p: Seq<char>) -> Seq<char> {
    match t {
        HType::Dyn { .. } => p,
        HType::Array { .. } => "("@ + p + ")"@,
        _ => "(&("@ + p + "))"@,
    }
}

/// Writes a borrow.
pub fn addr_value(t: &HType, p: String) -> (r: String)
    ensures
        r@ == addr_text(*t, p@),
{
    match t {
        HType::Dyn { .. } => p,
        HType::Array { .. } => cat3("(", &p, ")"),
        _ => cat3("(&(", &p, "))"),
    }
}

/// A trait object: the address of the value and the struct's table of methods.
pub open spec fn to_dyn_text(
    trait_name: Seq<char>,
    sname: Seq<char>,
    ty: HType,
    s: Seq<char>,
) -> Seq<char> {
    let data = match ty {
        HType::Ref { .. } => "(void*)("@ + s + ")"@,
        _ => "(void*)(&("@ + s + "))"@,
    };
    "((Dyn_"@ + text::ident(trait_name) + "){ .data = "@ + data + ", .vtbl = &"@ + text::ident(trait_name)
        + "_vtbl_for_"@ + text::ident(sname) + " })"@
}

/// Writes a trait object.
pub fn to_dyn(trait_name: &str, sname: &str, ty: &HType, s: &str) -> (r: String)
    ensures
        r@ == to_dyn_text(trait_name@, sname@, *ty, s@),
{
    let data: String = match ty {
        HType::Ref { .. } => cat3("(void*)(", s, ")"),
        _ => cat3("(void*)(&(", s, "))"),
    };
    let tn: String = c_ident(trait_name);
    cat9(
        "((Dyn_",
        &tn,
        "){ .data = ",
        &data,
        ", .vtbl = &",
        &tn,
        "_vtbl_for_",
        &c_ident(sname),
        " })",
    )
}

/// A struct literal.
pub open spec fn struct_text(name: Seq<char>, parts: Seq<Seq<char>>) -> Seq<char> {
    "(("@ + text::ident(name) + "){ "@ + text::joined(parts, ", "@) + " })"@
}

/// Writes a struct literal.
pub fn struct_value(name: &str, parts: &Vec<String>) -> (r: String)
    ensures
        r@ == struct_text(name@, text::views(parts@)),
{
    cat5("((", &c_ident(name), "){ ", &join(parts, ", "), " })")
}

/// Assignments of the first `n` texts to the elements of the buffer `__d`.
pub open spec fn stores_text(parts: Seq<Seq<char>>, n: nat) -> Seq<char>
    decreases n,
{
    if n == 0 {
        ""@
    } else {
        stores_text(parts, (n - 1) as nat) + ("__d["@ + text::decimal(n - 1) + "] = "@ + parts[n - 1]
            + "; "@)
    }
}

fn stores(parts: &Vec<String>) -> (r: String)
    ensures
        r@ == stores_text(text::views(parts@), parts@.len()),
{
    let ghost texts: Seq<Seq<char>> = text::views(parts@);
    let mut s: String = own("");
    let mut i: usize = 0;
    while i < parts.len()
        invariant
            i <= parts@.len(),
            texts == text::views(parts@),
            s@ == stores_text(texts, i as nat),
        decreases parts@.len() - i,
    {
        s.append(&cat5("__d[", &dec_u64(i as u64), "] = ", &parts[i], "; "));
        i += 1;
    }
    s
}

/// The types that an array literal of type `t` with `n` elements spells can be spelled.
pub open spec fn array_lit_ok(sym: SymTab, t: HType, n: nat) -> bool {
    match t.without_heap() {
        HType::Slice { elem, .. } => ctypes::key_ok(sym, *elem) && ctypes::ty_ok(sym, *elem),
        HType::Vec { elem } => ctypes::key_ok(sym, *elem) && (n > 0 ==> ctypes::ty_ok(sym, *elem)),
        _ => true,
    }
}

/// An array literal: a plain initializer list for a fixed array, a view of a temporary
/// for a slice, a filled buffer for a vector.
pub open spec fn array_lit_text(sym: SymTab, t: HType, parts: Seq<Seq<char>>) -> Seq<char> {
    let list = "{ "@ + text::joined(parts, ", "@) + " }"@;
    let n = text::decimal(parts.len() as int);
    match t.without_heap() {
        HType::Slice { elem, .. } => "((Slice_"@ + ctypes::ty_key(sym, *elem) + "){ .ptr = (("@ + ctypes::ty_c(
            sym,
            *elem,
        ) + "[])"@ + list + "), .len = "@ + n + " })"@,
        HType::Vec { elem } => if parts.len() == 0 {
            "((Vec_"@ + ctypes::ty_key(sym, *elem) + "){ .data = NULL, .len = 0, .cap = 0 })"@
        } else {
            let c = ctypes::ty_c(sym, *elem);
            "(__extension__ ({ "@ + c + "* __d = ("@ + c + "*)malloc(sizeof("@ + c + ")*"@ + n
                + "); "@ + stores_text(parts, parts.len()) + "(Vec_"@ + ctypes::ty_key(sym, *elem)
                + "){ .data = __d, .len = "@ + n + ", .cap = "@ + n + " }; }))"@
        },
        _ => list,
    }
}

/// Writes an array literal.
pub fn array_literal(sym: &SymTab, t: &HType, parts: &Vec<String>) -> (r: String)
    requires
        array_lit_ok(*sym, *t, parts@.len()),
    ensures
        r@ == array_lit_text(*sym, *t, text::views(parts@)),
{
    let list: String = cat3("{ ", &join(parts, ", "), " }");
    let n: String = dec_u64(parts.len() as u64);
    match t.strip_heap() {
        HType::Slice { elem, .. } => cat9(
            "((Slice_",
            &type_key(sym, elem),
            "){ .ptr = ((",
            &c_type(sym, elem),
            "[])",
            &list,
            "), .len = ",
            &n,
            " })",
        ),
        HType::Vec { elem } => if parts.len() == 0 {
            cat3("((Vec_", &type_key(sym, elem), "){ .data = NULL, .len = 0, .cap = 0 })")
        } else {
            let c: String = c_type(sym, elem);
            let mut s: String = cat10(
                "(__extension__ ({ ",
                &c,
                "* __d = (",
                &c,
                "*)malloc(sizeof(",
                &c,
                ")*",
                &n,
                "); ",
                &stores(parts),
            );
            s.append("(Vec_");
            s.append(&type_key(sym, elem));
            s.append("){ .data = __d, .len = ");
            s.append(&n);
            s.append(", .cap = ");
            s.append(&n);
            s.append(" }; }))");
            s
        },
        _ => list,
    }
}

/// A heap array of `len` elements of C type `c`, filled from the texts.
pub open spec fn heap_fill_text(c: Seq<char>, len: i64, parts: Seq<Seq<char>>) -> Seq<char> {
    "(__extension__ ({ "@ + c + "* __d = ("@ + c + "*)malloc(sizeof("@ + c + ")*"@ + text::decimal(
        len as int,
    ) + "); "@ + stores_text(parts, parts.len()) + "__d; }))"@
}

/// Writes an allocated array with its elements.
pub fn heap_fill(c: &str, len: i64, parts: &Vec<String>) -> (r: String)
    ensures
        r@ == heap_fill_text(c@, len, text::views(parts@)),
{
    cat11(
        "(__extension__ ({ ",
        c,
        "* __d = (",
        c,
        "*)malloc(sizeof(",
        c,
        ")*",
        &dec_i64(len),
        "); ",
        &stores(parts),
        "__d; }))",
    )
}

/// A heap array that is copied from the array value `v`.
pub open spec fn heap_copy_text(c: Seq<char>, len: i64, v: Seq<char>) -> Seq<char> {
    let n = text::decimal(len as int);
    "(__extension__ ({ "@ + c + " __s["@ + n + "] = "@ + v + "; "@ + c + "* __d = ("@ + c
        + "*)malloc(sizeof("@ + c + ")*"@ + n + "); for (size_t __i=0;__i<(size_t)"@ + n
        + ";__i++) __d[__i]=__s[__i]; __d; }))"@
}

/// Writes an allocated copy of an array.
pub fn heap_copy(c: &str, len: i64, v: &str) -> (r: String)
    ensures
        r@ == heap_copy_text(c@, len, v@),
{
    let n: String = dec_i64(len);
    let mut s: String = cat9("(__extension__ ({ ", c, " __s[", &n, "] = ", v, "; ", c, "* __d = (");
    s.append(c);
    s.append("*)malloc(sizeof(");
    s.append(c);
    s.append(")*");
    s.append(&n);
    s.append("); for (size_t __i=0;__i<(size_t)");
    s.append(&n);
    s.append(";__i++) __d[__i]=__s[__i]; __d; }))");
    s
}

/// A heap cell of C type `c` that holds `v`.
pub open spec fn heap_cell_text(c: Seq<char>, v: Seq<char>) -> Seq<char> {
    "(__extension__ ({ "@ + c + "* __p = ("@ + c + "*)malloc(sizeof("@ + c + ")); *__p = ("@ + v
        + "); __p; }))"@
}

/// Writes an allocated value.
pub fn heap_cell(c: &str, v: &str) -> (r: String)
    ensures
        r@ == heap_cell_text(c@, v@),
{
    cat9(
        "(__extension__ ({ ",
        c,
        "* __p = (",
        c,
        "*)malloc(sizeof(",
        c,
        ")); *__p = (",
        v,
        "); __p; }))",
    )
}

/// An explicit release.
pub open spec fn free_text(s: Seq<char>) -> Seq<char> {
    "(free((void*)("@ + s + ")), MAKA_UNIT)"@
}

/// Writes an explicit release.
pub fn free_value(s: &str) -> (r: String)
    ensures
        r@ == free_text(s@),
{
    cat3("(free((void*)(", s, ")), MAKA_UNIT)")
}

/// The slice type can be spelled.
pub open spec fn slice_view_ok(sym: SymTab, t: HType) -> bool {
    match t {
        HType::Slice { elem, .. } => ctypes::key_ok(sym, *elem),
        _ => true,
    }
}

/// A slice of the whole array `b`.
pub open spec fn slice_view_text(sym: SymTab, t: HType, b: Seq<char>, len: i64) -> Seq<char> {
    let key = match t {
        HType::Slice { elem, .. } => ctypes::ty_key(sym, *elem),
        _ => "maka_int"@,
    };
    "((Slice_"@ + key + "){ .ptr = (("@ + b + ")), .len = "@ + text::decimal(len as int) + " })"@
}

/// Writes an array as a slice.
pub fn slice_view(sym: &SymTab, t: &HType, b: &str, len: i64) -> (r: String)
    requires
        slice_view_ok(*sym, *t),
    ensures
        r@ == slice_view_text(*sym, *t, b@, len),
{
    let key: String = match t {
        HType::Slice { elem, .. } => type_key(sym, elem),
        _ => own("maka_int"),
    };
    cat7("((Slice_", &key, "){ .ptr = ((", b, ")), .len = ", &dec_i64(len), " })")
}

/// A call as an expression: one that yields nothing gets the unit value.
pub open spec fn call_value_text(call: Seq<char>, unit: bool) -> Seq<char> {
    if unit { "("@ + call + ", MAKA_UNIT)"@ } else { call }
}

fn call_value(call: String, sig: &FuncSig) -> (r: String)
    ensures
        r@ == call_value_text(call@, sig.ret is Unit),
{
    match &sig.ret {
        HType::Unit => cat3("(", &call, ", MAKA_UNIT)"),
        _ => call,
    }
}

/// A direct call; one without a result has the unit value.
pub open spec fn direct_text(sig: FuncSig, args: Seq<Seq<char>>) -> Seq<char> {
    call_value_text(ctypes::callee_c(sig) + "("@ + text::joined(args, ", "@) + ")"@, sig.ret is Unit)
}

/// Writes a direct call.
pub fn direct_call(sig: &FuncSig, args: &Vec<String>) -> (r: String)
    ensures
        r@ == direct_text(*sig, text::views(args@)),
{
    call_value(cat4(&callee_name(sig), "(", &join(args, ", "), ")"), sig)
}

/// A call through the method table of the trait object `recv`.
pub open spec fn dispatch_text(sig: FuncSig, recv: Seq<char>, rest: Seq<Seq<char>>) -> Seq<char> {
    let list = text::joined(rest, ", "@);
    call_value_text(
        "("@ + recv + ").vtbl->"@ + text::ident(sig.name@) + "(("@ + recv + ").data"@ + (if list == ""@ {
            ""@
        } else {
            ", "@
        }) + list + ")"@,
        sig.ret is Unit,
    )
}

/// Writes a call through a method table.
pub fn dispatch_call(sig: &FuncSig, recv: &str, rest: &Vec<String>) -> (r: String)
    ensures
        r@ == dispatch_text(*sig, recv@, text::views(rest@)),
{
    let list: String = join(rest, ", ");
    let comma: &str = if str_eq(&list, "") { "" } else { ", " };
    let call: String = cat10(
        "(",
        recv,
        ").vtbl->",
        &c_ident(&sig.name),
        "((",
        recv,
        ").data",
        comma,
        &list,
        ")",
    );
    call_value(call, sig)
}

/// A local variable in C; one that aliases existing storage is a pointer to it. Inside an
/// inline expansion locals go by their tagged names.
pub open spec fn local_text(
    f: HFunc,
    tag: Option<Seq<char>>,
    aliased: Set<u32>,
    id: LocalId,
) -> Seq<char> {
    let n = ctypes::scoped_c(f, tag, id);
    if tag is None && aliased.contains(id.0) { "(*"@ + n + ")"@ } else { n }
}

/// Writes a local.
pub fn local_value(
    f: &HFunc,
    tag: Option<&str>,
    aliased: &SortedMap<u32, ()>,
    id: LocalId,
) -> (r: String)
    requires
        aliased.wf(),
        tag is Some || id.0 < f.locals@.len(),
    ensures
        r@ == local_text(*f, ctypes::opt_view(tag), aliased.dom(), id),
{
    let n: String = scoped_name(f, tag, id);
    if tag.is_none() && aliased.contains(&id.0) {
        cat3("(*", &n, ")")
    } else {
        n
    }
}

} // verus!
