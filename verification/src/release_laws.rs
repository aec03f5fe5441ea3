//! What releasing a value does.
use vstd::prelude::*;

use crate::context::Out;
use crate::ctypes;
use crate::dispatch;
use crate::drops;
use crate::functions;
use crate::hir::{EnumId, EnumInfo, FieldInfo, HType, HirModule, StructId, SymTab};
use crate::module;
use crate::operators;
use crate::pieces;
use crate::text;
use crate::value_laws;

verus! {

/// A loop over the numbers from zero up to a limit.
pub open spec fn counting_loop(
    ind: Seq<char>,
    ty: Seq<char>,
    i: Seq<char>,
    limit: Seq<char>,
    body: Seq<char>,
) -> Seq<char> {
    text::line_c(
        ind,
        "for ("@ + ty + " "@ + i + " = 0; "@ + i + " < "@ + limit + "; "@ + i + "++) {"@,
    ) + body + text::line_c(ind, "}"@)
}

/// The block that runs where a pointer is not null.
pub open spec fn where_set(ind: Seq<char>, lv: Seq<char>, body: Seq<char>) -> Seq<char> {
    text::line_c(ind, "if ("@ + lv + ") {"@) + body + text::line_c(ind, "}"@)
}

/// An owning pointer that is set releases what it leads to and is then freed.
pub proof fn law_owning_pointer_is_freed(
    sym: SymTab,
    owns: Set<Seq<char>>,
    ind: Seq<char>,
    lv: Seq<char>,
    inner: HType,
    mutable: bool,
    depth: u64,
)
    ensures
        ({
            let body = drops::pointee_drop_c(sym, owns, text::deeper_c(ind), lv, inner, depth)
                + text::line_c(
                text::deeper_c(ind),
                "free("@ + lv + ");"@,
            );
            let b = Box::new(inner);
            &&& drops::field_drop_c(sym, owns, ind, lv, HType::OwnPtr { inner: b, mutable }, depth)
                == where_set(ind, lv, body)
            &&& !(inner is Vec) ==> drops::field_drop_c(
                sym,
                owns,
                ind,
                lv,
                HType::Heap { inner: b },
                depth,
            ) == where_set(ind, lv, body)
        }),
{
    let p = drops::pointee_drop_c(sym, owns, text::deeper_c(ind), lv, inner, depth);
    let f = text::line_c(text::deeper_c(ind), "free("@ + lv + ");"@);
    let h = text::line_c(ind, "if ("@ + lv + ") {"@);
    assert(h + p + f + text::line_c(ind, "}"@) =~= h + (p + f) + text::line_c(ind, "}"@));
}

/// A vector releases each of its elements, where they own something, and then its memory; the
/// same behind an owning reference.
pub proof fn law_vector_is_freed(
    sym: SymTab,
    owns: Set<Seq<char>>,
    ind: Seq<char>,
    lv: Seq<char>,
    elem: HType,
    depth: u64,
)
    ensures
        ({
            let v = HType::Vec { elem: Box::new(elem) };
            let i = "__v"@ + text::decimal(depth as int);
            let each = drops::field_drop_c(
                sym,
                owns,
                text::deeper_c(ind),
                "("@ + lv + ").data["@ + i + "]"@,
                elem,
                depth.wrapping_add(1),
            );
            let free = text::line_c(ind, "free("@ + lv + ".data);"@);
            let text = if drops::ty_owns(sym, owns, elem) {
                counting_loop(ind, "size_t"@, i, "("@ + lv + ").len"@, each) + free
            } else {
                free
            };
            &&& drops::field_drop_c(sym, owns, ind, lv, v, depth) == text
            &&& drops::field_drop_c(sym, owns, ind, lv, HType::Heap { inner: Box::new(v) }, depth)
                == text
        }),
{
    let i = "__v"@ + text::decimal(depth as int);
    lemma_vec_head(ind, lv, i);
    let v = HType::Vec { elem: Box::new(elem) };
    let text = drops::vec_drop_c(sym, owns, ind, lv, elem, depth);
    assert(drops::field_drop_c(sym, owns, ind, lv, v, depth) == text);
    assert(drops::field_drop_c(sym, owns, ind, lv, HType::Heap { inner: Box::new(v) }, depth)
        == text);
    let each = drops::field_drop_c(
        sym,
        owns,
        text::deeper_c(ind),
        "("@ + lv + ").data["@ + i + "]"@,
        elem,
        depth.wrapping_add(1),
    );
    let free = text::line_c(ind, "free("@ + lv + ".data);"@);
    if drops::ty_owns(sym, owns, elem) {
        assert(text == text::line_c(ind, drops::vec_loop_head(lv, i)) + each + text::line_c(ind,
            "}"@) + free);
    } else {
        assert(text == free);
    }
}

proof fn lemma_vec_head(ind: Seq<char>, lv: Seq<char>, i: Seq<char>)
    ensures
        drops::vec_loop_head(lv, i) == "for ("@ + "size_t"@ + " "@ + i + " = 0; "@ + i + " < "@
            + ("("@ + lv
            + ").len"@) + "; "@ + i + "++) {"@,
{
    broadcast use pieces::lemma_put_together;

    reveal_strlit("for (size_t ");
    reveal_strlit("for (");
    reveal_strlit("size_t");
    reveal_strlit(" ");
    reveal_strlit(" < (");
    reveal_strlit(" < ");
    reveal_strlit("(");
    reveal_strlit(").len; ");
    reveal_strlit(").len");
    reveal_strlit("; ");
    assert("for (size_t "@ =~= "for ("@ + "size_t"@ + " "@);
    assert(" < ("@ =~= " < "@ + "("@);
    assert(").len; "@ =~= ").len"@ + "; "@);
}

/// A fixed array releases each of its elements, where they own something.
pub proof fn law_array_is_released(
    sym: SymTab,
    owns: Set<Seq<char>>,
    ind: Seq<char>,
    lv: Seq<char>,
    len: i64,
    elem: HType,
    depth: u64,
)
    ensures
        ({
            let a = HType::Array { len, elem: Box::new(elem) };
            let i = "__d"@ + text::decimal(depth as int);
            let each = drops::field_drop_c(
                sym,
                owns,
                text::deeper_c(ind),
                "("@ + lv + ")["@ + i + "]"@,
                elem,
                depth.wrapping_add(1),
            );
            drops::field_drop_c(sym, owns, ind, lv, a, depth) == (if drops::ty_owns(sym, owns,
                elem) {
                counting_loop(ind, "maka_int"@, i, text::decimal(len as int), each)
            } else {
                ""@
            })
        }),
{
    let i = "__d"@ + text::decimal(depth as int);
    lemma_array_head(i, text::decimal(len as int));
}

proof fn lemma_array_head(i: Seq<char>, n: Seq<char>)
    ensures
        "for (maka_int "@ + i + " = 0; "@ + i + " < "@ + n + "; "@ + i + "++) {"@ == "for ("@
            + "maka_int"@ + " "@ + i + " = 0; "@ + i + " < "@ + n + "; "@ + i + "++) {"@,
{
    reveal_strlit("for (maka_int ");
    reveal_strlit("for (");
    reveal_strlit("maka_int");
    reveal_strlit(" ");
    assert("for (maka_int "@ =~= "for ("@ + "maka_int"@ + " "@);
}

/// A struct or enum that owns something is released by its own function, by address; the
/// target of a pointer by the pointer. What owns nothing needs no code.
pub proof fn law_named_types_are_released_by_their_function(
    sym: SymTab,
    owns: Set<Seq<char>>,
    ind: Seq<char>,
    lv: Seq<char>,
    s: StructId,
    e: EnumId,
    depth: u64,
)
    ensures
        ({
            let (st, et) = (HType::Struct(s), HType::Enum(e));
            let sn = sym.structs@[s.0 as int].name@;
            let en = sym.enums@[e.0 as int].name@;
            let run = |n: Seq<char>, x: Seq<char>|
                text::line_c(ind, "__maka_drop_"@ + text::ident(n) + "("@ + x + ");"@);
            &&& drops::field_drop_c(sym, owns, ind, lv, st, depth) == (if owns.contains(sn) {
                run(sn, "&("@ + lv + ")"@)
            } else {
                ""@
            })
            &&& drops::field_drop_c(sym, owns, ind, lv, et, depth) == (if owns.contains(en) {
                run(en, "&("@ + lv + ")"@)
            } else {
                ""@
            })
            &&& drops::pointee_drop_c(sym, owns, ind, lv, st, depth) == (if owns.contains(sn) {
                run(sn, lv)
            } else {
                ""@
            })
            &&& drops::pointee_drop_c(sym, owns, ind, lv, et, depth) == (if owns.contains(en) {
                run(en, lv)
            } else {
                ""@
            })
        }),
{
    reveal_strlit("(&(");
    reveal_strlit("(");
    reveal_strlit("&(");
    reveal_strlit("));");
    reveal_strlit(")");
    reveal_strlit(");");
    assert("(&("@ =~= "("@ + "&("@);
    assert("));"@ =~= ")"@ + ");"@);
    let sn = text::ident(sym.structs@[s.0 as int].name@);
    let en = text::ident(sym.enums@[e.0 as int].name@);
    lemma_drop_call(sn, lv);
    lemma_drop_call(en, lv);
}

proof fn lemma_drop_call(n: Seq<char>, lv: Seq<char>)
    ensures
        "__maka_drop_"@ + n + "(&("@ + lv + "));"@ == "__maka_drop_"@ + n + "("@ + ("&("@ + lv
            + ")"@)
            + ");"@,
{
    broadcast use pieces::lemma_put_together;

    reveal_strlit("(&(");
    reveal_strlit("(");
    reveal_strlit("&(");
    reveal_strlit("));");
    reveal_strlit(")");
    reveal_strlit(");");
    assert("(&("@ =~= "("@ + "&("@);
    assert("));"@ =~= ")"@ + ");"@);
}

/// What a pointer leads to is released as the value that it is: an array by the pointer, which
/// is its first element, other owners by what the pointer leads to.
pub proof fn law_target_is_released(
    sym: SymTab,
    owns: Set<Seq<char>>,
    ind: Seq<char>,
    ptr: Seq<char>,
    t: HType,
    depth: u64,
)
    ensures
        t is OwnPtr || t is Heap || t is Vec ==> drops::pointee_drop_c(sym, owns, ind, ptr, t,
            depth)
            == drops::field_drop_c(sym, owns, ind, "(*("@ + ptr + "))"@, t, depth),
        t is Array ==> drops::pointee_drop_c(sym, owns, ind, ptr, t, depth) == drops::field_drop_c(
            sym,
            owns,
            ind,
            ptr,
            t,
            depth,
        ),
        !drops::ty_owns(sym, owns, t) ==> drops::pointee_drop_c(sym, owns, ind, ptr, t, depth)
            == ""@,
{
}

/// Which types own something.
pub proof fn law_what_owns(sym: SymTab, owns: Set<Seq<char>>, t: HType)
    ensures
        match t {
            HType::OwnPtr { .. } | HType::Heap { .. } | HType::Vec { .. } => drops::ty_owns(sym,
                owns, t),
            HType::Array { elem, .. } => drops::ty_owns(sym, owns, t) <==> drops::ty_owns(sym, owns,
                *elem),
            HType::Struct(id) => drops::ty_owns(sym, owns, t) <==> owns.contains(
                sym.structs@[id.0 as int].name@,
            ),
            HType::Enum(id) => drops::ty_owns(sym, owns, t) <==> owns.contains(
                sym.enums@[id.0 as int].name@,
            ),
            _ => !drops::ty_owns(sym, owns, t),
        },
{
}

/// The function that releases a struct releases each of its owning fields, in their order, and
/// no other; that of an enum does so for the fields of the variant whose tag the value has.
pub proof fn law_glue_releases_the_fields(
    sym: SymTab,
    owns: Set<Seq<char>>,
    ind: Seq<char>,
    prefix: Seq<char>,
    fields: Seq<FieldInfo>,
    e: EnumInfo,
    n: nat,
)
    ensures
        n < fields.len() ==> drops::fields_drop_c(sym, owns, ind, prefix, fields, n + 1)
            == drops::fields_drop_c(
            sym,
            owns,
            ind,
            prefix,
            fields,
            n,
        ) + drops::field_drop_c(
            sym,
            owns,
            ind,
            prefix + text::ident(fields[n as int].name@),
            fields[n as int].ty,
            0,
        ),
        n < e.variants@.len() ==> ({
            let v = e.variants@[n as int];
            let k = v.fields@.len();
            let some = exists|i: int|
                0 <= i < k && drops::ty_owns(sym, owns, (#[trigger] v.fields@[i]).ty);
            drops::variant_drops(sym, owns, ind, e, n + 1) == drops::variant_drops(sym, owns, ind,
                e, n) + (
            if some {
                text::line_c(ind, "case "@ + text::decimal(v.tag as int) + ": {"@)
                    + drops::fields_drop_c(
                    sym,
                    owns,
                    text::deeper_c(ind),
                    "p->payload."@ + text::ident(v.name@) + "."@,
                    v.fields@,
                    k,
                ) + text::line_c(ind, "} break;"@)
            } else {
                ""@
            })
        }),
        drops::fields_drop_c(sym, owns, ind, prefix, fields, 0) == ""@,
        drops::variant_drops(sym, owns, ind, e, 0) == ""@,
{
    reveal_strlit("");
    let j = n + 1;
    assert((j - 1) as nat == n);
    if n < fields.len() {
        let f = fields[n as int];
        drops::law_drops_what_owns(sym, owns, ind, prefix + text::ident(f.name@), f.ty, 0);
        let b = drops::fields_drop_c(sym, owns, ind, prefix, fields, n);
        assert(b + ""@ =~= b);
    }
    if n < e.variants@.len() {
        let v = e.variants@[n as int];
        let b = drops::variant_drops(sym, owns, ind, e, n);
        assert(b + ""@ =~= b);
        let h = text::line_c(ind, "case "@ + text::decimal(v.tag as int) + ": {"@);
        let m = drops::fields_drop_c(
            sym,
            owns,
            text::deeper_c(ind),
            "p->payload."@ + text::ident(v.name@) + "."@,
            v.fields@,
            v.fields@.len(),
        );
        let z = text::line_c(ind, "} break;"@);
        assert(b + h + m + z =~= b + (h + m + z));
    }
}

/// Each owning type has its function, with a pointer to the value as parameter.
pub proof fn law_glue_functions(sym: SymTab, owns: Set<Seq<char>>, n: nat)
    ensures
        n < sym.structs@.len() && owns.contains(sym.structs@[n as int].name@)
            && sym.structs@[n as int].written() ==> ({
            let s = sym.structs@[n as int];
            let c = text::ident(s.name@);
            drops::struct_glue_bodies(sym, owns, n + 1) == drops::struct_glue_bodies(sym, owns, n)
                + text::line_c(
                ""@,
                "static void __maka_drop_"@ + c + "(struct "@ + c + "* p)"@ + " {"@,
            ) + drops::fields_drop_c(sym, owns, text::deeper_c(""@), "p->"@, s.fields@,
                s.fields@.len()) + text::line_c(
                ""@,
                "}"@,
            )
        }),
        n < sym.enums@.len() && owns.contains(sym.enums@[n as int].name@)
            && value_laws::some_values(
            sym.enums@[n as int],
        ) ==> ({
            let e = sym.enums@[n as int];
            let c = text::ident(e.name@);
            drops::enum_glue_bodies(sym, owns, n + 1) == drops::enum_glue_bodies(sym, owns, n)
                + text::line_c(
                ""@,
                "static void __maka_drop_"@ + c + "(struct "@ + c + "* p)"@ + " {"@,
            ) + text::line_c(text::deeper_c(""@), "switch (p->tag) {"@) + drops::variant_drops(
                sym,
                owns,
                text::deeper_c(text::deeper_c(""@)),
                e,
                e.variants@.len(),
            ) + text::line_c(text::deeper_c(""@), "}"@) + text::line_c(""@, "}"@)
        }),
{
    let j = n + 1;
    assert((j - 1) as nat == n);
}

/// The sections of a module stand in this order, so that each finds declared what it names:
/// types, tables and callables, foreign C, prototypes, tables of methods, trampolines, globals
/// and the functions that release.
pub proof fn law_sections_in_order(m: HirModule, freestanding: bool)
    ensures
        ({
            let sym = m.sym;
            let seen = module::module_notes(sym, freestanding);
            let types = module::module_types(m, freestanding) + (dispatch::dyn_typedefs(sym,
                seen.traits)
                + dispatch::callable_typedefs(sym, seen.callables));
            let c = module::blocks_text(m.cblocks@, m.cblocks@.len()) + module::foreign_text(
                sym,
                sym.sigs@.len(),
            );
            let names = module::prototypes_text(sym, sym.funcs@.len()) + "\n"@;
            let tables = dispatch::vtables(sym, seen.insts) + (dispatch::trampolines(
                sym,
                seen.refs,
                module::any_concrete(sym),
            ) + dispatch::closure_trampolines(sym, seen.closures));
            let data = module::globals_text(sym, sym.globals@.len()) + drops::drop_glue_c(sym,
                drops::owning_names(sym));
            module::declarations_text(m, freestanding) == types + c + names + tables + data
        }),
{
    let sym = m.sym;
    let seen = module::module_notes(sym, freestanding);
    reveal_strlit("");
    assert(text::line_c(""@, ""@) =~= "\n"@);
    lemma_sections(
        module::module_types(m, freestanding),
        dispatch::dyn_typedefs(sym, seen.traits),
        dispatch::callable_typedefs(sym, seen.callables),
        module::blocks_text(m.cblocks@, m.cblocks@.len()),
        module::foreign_text(sym, sym.sigs@.len()),
        module::prototypes_text(sym, sym.funcs@.len()),
        "\n"@,
        dispatch::vtables(sym, seen.insts),
        dispatch::trampolines(sym, seen.refs, module::any_concrete(sym)),
        dispatch::closure_trampolines(sym, seen.closures),
        module::globals_text(sym, sym.globals@.len()),
        drops::drop_glue_c(sym, drops::owning_names(sym)),
    );
}

proof fn lemma_sections(
    a: Seq<char>,
    b: Seq<char>,
    c: Seq<char>,
    d: Seq<char>,
    e: Seq<char>,
    f: Seq<char>,
    g: Seq<char>,
    h: Seq<char>,
    i: Seq<char>,
    j: Seq<char>,
    k: Seq<char>,
    l: Seq<char>,
)
    ensures
        a + b + c + d + e + f + g + h + i + j + k + l == (a + (b + c)) + (d + e) + (f + g) + (h + (i
            + j)) + (k + l),
{
    broadcast use pieces::lemma_put_together;

}

/// The functions stand in their order, each lowered in the state that those before it leave.
pub proof fn law_functions_in_order(d: nat, sym: SymTab, owns: Set<Seq<char>>, n: nat)
    requires
        n < sym.funcs@.len(),
    ensures
        ({
            let before = module::funcs_c(d, sym, owns, n);
            let f = sym.funcs@[n as int];
            let this = functions::func_c(d, sym, owns, before.st, f);
            if sym.the_sig(f.id).type_params@.len() == 0 {
                module::funcs_c(d, sym, owns, n + 1) == (Out {
                    text: before.text + this.text,
                    st: this.st,
                })
            } else {
                module::funcs_c(d, sym, owns, n + 1) == before
            }
        }),
        module::funcs_c(d, sym, owns, 0).text == ""@,
{
    let j = n + 1;
    assert((j - 1) as nat == n);
}

/// Headers, pasted C and prototypes stand in their order.
pub proof fn law_lists_in_order(sym: SymTab, headers: Seq<String>, blocks: Seq<String>, n: nat)
    ensures
        n < headers.len() ==> module::headers_text(headers, n + 1) == module::headers_text(headers,
            n)
            + "#include <"@ + headers[n as int]@ + ">\n"@,
        n < blocks.len() ==> module::blocks_text(blocks, n + 1) == module::blocks_text(blocks, n)
            + blocks[n as int]@ + "\n"@,
        n < sym.funcs@.len() ==> ({
            let f = sym.funcs@[n as int];
            let sig = sym.the_sig(f.id);
            module::prototypes_text(sym, n + 1) == module::prototypes_text(sym, n)
                + (if sig.type_params@.len() == 0
                && !sig.is_inline {
                text::line_c(""@, ctypes::signature_c(sym, f) + ";"@)
            } else {
                ""@
            })
        }),
        n < sym.globals@.len() ==> ({
            let g = sym.globals@[n as int];
            module::globals_text(sym, n + 1) == module::globals_text(sym, n) + text::line_c(
                ""@,
                "static "@ + (ctypes::ty_c(sym, g.ty) + " "@ + g.c_name@) + " = "@
                    + operators::global_init_text(g.init)
                    + ";"@,
            )
        }),
{
    let j = n + 1;
    assert((j - 1) as nat == n);
    reveal_strlit("");
    if n < headers.len() {
        let b = module::headers_text(headers, n);
        let h = headers[n as int]@;
        assert(b + ("#include <"@ + h + ">\n"@) =~= b + "#include <"@ + h + ">\n"@);
    }
    if n < sym.funcs@.len() {
        let p = module::prototypes_text(sym, n);
        assert(p + ""@ =~= p);
    }
    if n < sym.globals@.len() {
        let g = sym.globals@[n as int];
        let t = ctypes::ty_c(sym, g.ty);
        assert("static "@ + t + " "@ + g.c_name@ + " = "@ =~= "static "@ + (t + " "@ + g.c_name@)
            + " = "@);
    }
}

} // verus!
