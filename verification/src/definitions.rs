//! Writing structs and enums: forward declarations, then definitions in order.
use vstd::prelude::*;

use crate::ctypes;
use crate::ctypes::c_decl;
use crate::drops;
use crate::hir::{EnumInfo, FieldInfo, HType, StructInfo, SymTab, VariantInfo};
use crate::layout;
use crate::layout::{TypeRef, order_types};
use crate::scan;
use crate::scan::{Noted, Notes, note_type};
use crate::text;
use crate::text::{c_ident, cat2, cat3, cat5, cat6, cat7, cat9, dec_i64, deeper, line, own};
use crate::typedefs;
use crate::typedefs::{emit_slice_typedefs, emit_vec_typedefs};

verus! {

/// The forward declaration of the struct `name`.
pub open spec fn forward_text(name: Seq<char>) -> Seq<char> {
    text::line_c(""@, "typedef struct "@ + text::ident(name) + " "@ + text::ident(name) + ";"@)
}

fn forward(name: &str) -> (r: String)
    ensures
        r@ == forward_text(name@),
{
    let n: String = c_ident(name);
    line("", &cat5("typedef struct ", &n, " ", &n, ";"))
}

/// The forward declarations of the first `n` structs; templates and the runtime's own
/// `Thread` have none.
pub open spec fn struct_forwards(sym: SymTab, n: nat) -> Seq<char>
    decreases n,
{
    if n == 0 || n > sym.structs@.len() {
        ""@
    } else {
        let s = sym.structs@[n - 1];
        let before = struct_forwards(sym, (n - 1) as nat);
        if s.written() { before + forward_text(s.name@) } else { before }
    }
}

/// What is declared for a variant: a constant, or a macro for its tag where the enum
/// carries payloads.
pub open spec fn variant_decl(e: EnumInfo, v: VariantInfo) -> Seq<char> {
    let en = text::ident(e.name@);
    text::line_c(
        ""@,
        if e.simple() {
            "static const "@ + en + " "@ + en + "__"@ + text::ident(v.name@) + " = "@ + text::decimal(
                v.tag as int,
            ) + ";"@
        } else {
            "#define "@ + en + "__"@ + text::ident(v.name@) + "_TAG "@ + text::decimal(v.tag as int)
        },
    )
}

/// The declarations of the first `n` variants.
pub open spec fn variant_decls(e: EnumInfo, n: nat) -> Seq<char>
    decreases n,
{
    if n == 0 || n > e.variants@.len() {
        ""@
    } else {
        variant_decls(e, (n - 1) as nat) + variant_decl(e, e.variants@[n - 1])
    }
}

/// The declarations of the first `n` enums.
pub open spec fn enum_forwards(sym: SymTab, n: nat) -> Seq<char>
    decreases n,
{
    if n == 0 || n > sym.enums@.len() {
        ""@
    } else {
        let e = sym.enums@[n - 1];
        enum_forwards(sym, (n - 1) as nat) + (if e.simple() {
            text::line_c(""@, "typedef maka_int "@ + text::ident(e.name@) + ";"@)
        } else {
            forward_text(e.name@)
        }) + variant_decls(e, e.variants@.len())
    }
}

fn declare_structs(sym: &SymTab) -> (r: String)
    ensures
        r@ == struct_forwards(*sym, sym.structs@.len()),
{
    let mut out: String = own("");
    let mut i: usize = 0;
    while i < sym.structs.len()
        invariant
            i <= sym.structs@.len(),
            out@ == struct_forwards(*sym, i as nat),
        decreases sym.structs@.len() - i,
    {
        let s: &StructInfo = &sym.structs[i];
        if s.is_written() {
            out.append(&forward(&s.name));
        }
        i += 1;
    }
    out
}

fn declare_variants(e: &EnumInfo) -> (r: String)
    ensures
        r@ == variant_decls(*e, e.variants@.len()),
{
    let en: String = c_ident(&e.name);
    let simple: bool = e.is_simple();
    let mut out: String = own("");
    let mut i: usize = 0;
    while i < e.variants.len()
        invariant
            i <= e.variants@.len(),
            en@ == text::ident(e.name@),
            simple == e.simple(),
            out@ == variant_decls(*e, i as nat),
        decreases e.variants@.len() - i,
    {
        let v: &VariantInfo = &e.variants[i];
        let text: String = if simple {
            cat9(
                "static const ",
                &en,
                " ",
                &en,
                "__",
                &c_ident(&v.name),
                " = ",
                &dec_i64(v.tag),
                ";",
            )
        } else {
            cat6("#define ", &en, "__", &c_ident(&v.name), "_TAG ", &dec_i64(v.tag))
        };
        out.append(&line("", &text));
        i += 1;
    }
    out
}

fn declare_enums(sym: &SymTab) -> (r: String)
    ensures
        r@ == enum_forwards(*sym, sym.enums@.len()),
{
    let mut out: String = own("");
    let mut i: usize = 0;
    while i < sym.enums.len()
        invariant
            i <= sym.enums@.len(),
            out@ == enum_forwards(*sym, i as nat),
        decreases sym.enums@.len() - i,
    {
        let e: &EnumInfo = &sym.enums[i];
        if e.is_simple() {
            out.append(&line("", &cat3("typedef maka_int ", &c_ident(&e.name), ";")));
        } else {
            out.append(&forward(&e.name));
        }
        out.append(&declare_variants(e));
        i += 1;
    }
    out
}

/// The types of the fields can be spelled.
pub open spec fn fields_ty_ok(sym: SymTab, fields: Seq<FieldInfo>) -> bool {
    forall|i: int| 0 <= i < fields.len() ==> ctypes::ty_ok(sym, (#[trigger] fields[i]).ty)
}

/// The types of the fields of the struct or enum can be spelled.
pub open spec fn ref_ty_ok(sym: SymTab, r: TypeRef) -> bool {
    if r.is_enum {
        let e = sym.enums@[r.index as int];
        forall|i: int|
            0 <= i < e.variants@.len() ==> fields_ty_ok(sym, (#[trigger] e.variants@[i]).fields@)
    } else {
        fields_ty_ok(sym, sym.structs@[r.index as int].fields@)
    }
}

proof fn lemma_ty_embed(sym: SymTab, t: HType)
    requires
        ctypes::ty_ok(sym, t),
    ensures
        drops::embed_ok(sym, t),
    decreases t,
{
    if let HType::Array { elem, .. } = t {
        lemma_ty_embed(sym, *elem);
    }
}

proof fn lemma_ref_embed(sym: SymTab, r: TypeRef)
    requires
        ref_ty_ok(sym, r),
    ensures
        layout::ref_embed_ok(sym, r),
{
    if r.is_enum {
        let e = sym.enums@[r.index as int];
        assert forall|i: int| 0 <= i < e.variants@.len() implies drops::fields_embed_ok(
            sym,
            (#[trigger] e.variants@[i]).fields@,
        ) by {
            let fields = e.variants@[i].fields@;
            assert forall|j: int| 0 <= j < fields.len() implies drops::embed_ok(
                sym,
                (#[trigger] fields[j]).ty,
            ) by {
                lemma_ty_embed(sym, fields[j].ty);
            }
        }
    } else {
        let fields = sym.structs@[r.index as int].fields@;
        assert forall|j: int| 0 <= j < fields.len() implies drops::embed_ok(
            sym,
            (#[trigger] fields[j]).ty,
        ) by {
            lemma_ty_embed(sym, fields[j].ty);
        }
    }
}

/// The first `n` fields of a payload.
pub open spec fn payload_fields(sym: SymTab, fields: Seq<FieldInfo>, n: nat) -> Seq<char>
    decreases n,
{
    if n == 0 || n > fields.len() {
        ""@
    } else {
        let f = fields[n - 1];
        payload_fields(sym, fields, (n - 1) as nat) + text::line_c(
            text::deeper_c(""@),
            ctypes::decl_c(sym, f.ty, text::ident(f.name@)) + ";"@,
        )
    }
}

/// The payload structs of the first `n` variants.
pub open spec fn payload_structs(sym: SymTab, e: EnumInfo, n: nat) -> Seq<char>
    decreases n,
{
    if n == 0 || n > e.variants@.len() {
        ""@
    } else {
        let v = e.variants@[n - 1];
        let before = payload_structs(sym, e, (n - 1) as nat);
        if v.fields@.len() == 0 {
            before
        } else {
            before + text::line_c(""@, "typedef struct {"@) + payload_fields(
                sym,
                v.fields@,
                v.fields@.len(),
            ) + text::line_c(""@, "} "@ + text::ident(e.name@) + "_"@ + text::ident(v.name@) + "_Payload;"@)
        }
    }
}

/// The members of the union for the first `n` variants.
pub open spec fn payload_members(e: EnumInfo, n: nat) -> Seq<char>
    decreases n,
{
    if n == 0 || n > e.variants@.len() {
        ""@
    } else {
        let v = e.variants@[n - 1];
        let before = payload_members(e, (n - 1) as nat);
        if v.fields@.len() == 0 {
            before
        } else {
            before + text::line_c(
                text::deeper_c(text::deeper_c(""@)),
                text::ident(e.name@) + "_"@ + text::ident(v.name@) + "_Payload "@ + text::ident(v.name@) + ";"@,
            )
        }
    }
}

/// The definition of an enum with payload: a tag and a union.
pub open spec fn enum_def(sym: SymTab, e: EnumInfo) -> Seq<char> {
    payload_structs(sym, e, e.variants@.len()) + text::line_c(""@, "struct "@ + text::ident(e.name@) + " {"@)
        + text::line_c(text::deeper_c(""@), "maka_int tag;"@) + text::line_c(text::deeper_c(""@), "union {"@)
        + payload_members(e, e.variants@.len()) + text::line_c(text::deeper_c(""@), "} payload;"@) + text::line_c(
        ""@,
        "};"@,
    )
}

/// The first `n` fields of a struct.
pub open spec fn struct_fields(sym: SymTab, fields: Seq<FieldInfo>, n: nat) -> Seq<char>
    decreases n,
{
    if n == 0 || n > fields.len() {
        ""@
    } else {
        let f = fields[n - 1];
        struct_fields(sym, fields, (n - 1) as nat) + text::line_c(
            text::deeper_c(""@),
            ctypes::decl_c(sym, f.ty, text::ident(f.name@)) + ";"@,
        )
    }
}

/// The definition of a struct.
pub open spec fn struct_def(sym: SymTab, s: StructInfo) -> Seq<char> {
    text::line_c(""@, "struct "@ + text::ident(s.name@) + " {"@) + struct_fields(
        sym,
        s.fields@,
        s.fields@.len(),
    ) + text::line_c(""@, "};"@)
}

/// The definitions of the first `n` types.
pub open spec fn type_defs(sym: SymTab, refs: Seq<TypeRef>, n: nat) -> Seq<char>
    decreases n,
{
    if n == 0 || n > refs.len() {
        ""@
    } else {
        let r = refs[n - 1];
        type_defs(sym, refs, (n - 1) as nat) + (if r.is_enum {
            enum_def(sym, sym.enums@[r.index as int])
        } else {
            struct_def(sym, sym.structs@[r.index as int])
        })
    }
}

fn define_payloads(sym: &SymTab, e: &EnumInfo) -> (r: (String, String))
    requires
        forall|i: int|
            0 <= i < e.variants@.len() ==> fields_ty_ok(*sym, (#[trigger] e.variants@[i]).fields@),
    ensures
        r.0@ == payload_structs(*sym, *e, e.variants@.len()),
        r.1@ == payload_members(*e, e.variants@.len()),
{
    let ind: String = deeper("");
    let ind2: String = deeper(&ind);
    let en: String = c_ident(&e.name);
    let mut structs: String = own("");
    let mut members: String = own("");
    let mut i: usize = 0;
    while i < e.variants.len()
        invariant
            i <= e.variants@.len(),
            ind@ == text::deeper_c(""@),
            ind2@ == text::deeper_c(text::deeper_c(""@)),
            en@ == text::ident(e.name@),
            forall|j: int|
                0 <= j < e.variants@.len() ==> fields_ty_ok(
                    *sym,
                    (#[trigger] e.variants@[j]).fields@,
                ),
            structs@ == payload_structs(*sym, *e, i as nat),
            members@ == payload_members(*e, i as nat),
        decreases e.variants@.len() - i,
    {
        let v: &VariantInfo = &e.variants[i];
        assert(fields_ty_ok(*sym, e.variants@[i as int].fields@));
        if v.fields.len() != 0 {
            let vn: String = c_ident(&v.name);
            let mut fields: String = own("");
            let mut j: usize = 0;
            while j < v.fields.len()
                invariant
                    j <= v.fields@.len(),
                    ind@ == text::deeper_c(""@),
                    fields_ty_ok(*sym, v.fields@),
                    fields@ == payload_fields(*sym, v.fields@, j as nat),
                decreases v.fields@.len() - j,
            {
                let f: &FieldInfo = &v.fields[j];
                let text: String = cat2(&c_decl(sym, &f.ty, &c_ident(&f.name)), ";");
                fields.append(&line(&ind, &text));
                j += 1;
            }
            structs.append(&line("", "typedef struct {"));
            structs.append(&fields);
            structs.append(&line("", &cat5("} ", &en, "_", &vn, "_Payload;")));
            members.append(&line(&ind2, &cat6(&en, "_", &vn, "_Payload ", &vn, ";")));
        }
        i += 1;
    }
    (structs, members)
}

fn define_enum(sym: &SymTab, e: &EnumInfo) -> (r: String)
    requires
        forall|i: int|
            0 <= i < e.variants@.len() ==> fields_ty_ok(*sym, (#[trigger] e.variants@[i]).fields@),
    ensures
        r@ == enum_def(*sym, *e),
{
    let ind: String = deeper("");
    let (structs, members) = define_payloads(sym, e);
    cat7(
        &structs,
        &line("", &cat3("struct ", &c_ident(&e.name), " {")),
        &line(&ind, "maka_int tag;"),
        &line(&ind, "union {"),
        &members,
        &line(&ind, "} payload;"),
        &line("", "};"),
    )
}

fn define_struct(sym: &SymTab, s: &StructInfo) -> (r: String)
    requires
        fields_ty_ok(*sym, s.fields@),
    ensures
        r@ == struct_def(*sym, *s),
{
    let ind: String = deeper("");
    let mut fields: String = own("");
    let mut i: usize = 0;
    while i < s.fields.len()
        invariant
            i <= s.fields@.len(),
            ind@ == text::deeper_c(""@),
            fields_ty_ok(*sym, s.fields@),
            fields@ == struct_fields(*sym, s.fields@, i as nat),
        decreases s.fields@.len() - i,
    {
        let f: &FieldInfo = &s.fields[i];
        let decl: String = c_decl(sym, &f.ty, &c_ident(&f.name));
        fields.append(&line(&ind, &cat2(&decl, ";")));
        i += 1;
    }
    cat3(
        &line("", &cat3("struct ", &c_ident(&s.name), " {")),
        &fields,
        &line("", "};"),
    )
}

fn define_types(sym: &SymTab, refs: &Vec<TypeRef>) -> (r: String)
    requires
        layout::refs_ok(*sym, refs@),
        forall|i: int| 0 <= i < refs@.len() ==> ref_ty_ok(*sym, #[trigger] refs@[i]),
    ensures
        r@ == type_defs(*sym, refs@, refs@.len()),
{
    let mut out: String = own("");
    let mut i: usize = 0;
    while i < refs.len()
        invariant
            i <= refs@.len(),
            layout::refs_ok(*sym, refs@),
            forall|j: int| 0 <= j < refs@.len() ==> ref_ty_ok(*sym, #[trigger] refs@[j]),
            out@ == type_defs(*sym, refs@, i as nat),
        decreases refs@.len() - i,
    {
        let t: TypeRef = refs[i];
        assert(layout::ref_ok(*sym, refs@[i as int]) && ref_ty_ok(*sym, refs@[i as int]));
        if t.is_enum {
            out.append(&define_enum(sym, &sym.enums[t.index]));
        } else {
            out.append(&define_struct(sym, &sym.structs[t.index]));
        }
        i += 1;
    }
    out
}

/// What is known after the fields of the first `k` of them were seen.
pub open spec fn noted_fields(sym: SymTab, fields: Seq<FieldInfo>, k: nat, n: Noted) -> Noted
    decreases k,
{
    if k == 0 || k > fields.len() {
        n
    } else {
        scan::note_c(sym, fields[k - 1].ty, noted_fields(sym, fields, (k - 1) as nat, n))
    }
}

/// What is known after the first `k` structs were seen; templates do not count.
pub open spec fn noted_structs(sym: SymTab, k: nat, n: Noted) -> Noted
    decreases k,
{
    if k == 0 || k > sym.structs@.len() {
        n
    } else {
        let s = sym.structs@[k - 1];
        let before = noted_structs(sym, (k - 1) as nat, n);
        if s.is_template() {
            before
        } else {
            noted_fields(sym, s.fields@, s.fields@.len(), before)
        }
    }
}

/// The fields of every struct that is no template can be noted.
pub open spec fn struct_notes_ok(sym: SymTab) -> bool {
    forall|i: int, j: int|
        0 <= i < sym.structs@.len() && !sym.structs@[i].is_template() && 0 <= j
            < sym.structs@[i].fields@.len() ==> scan::note_ok(
            sym,
            (#[trigger] sym.structs@[i].fields@[j]).ty,
        )
}

fn note_structs<'a>(sym: &'a SymTab, n: &mut Notes<'a>)
    requires
        old(n).wf(),
        struct_notes_ok(*sym),
    ensures
        final(n).wf(),
        final(n).noted() == noted_structs(*sym, sym.structs@.len(), old(n).noted()),
{
    let mut i: usize = 0;
    while i < sym.structs.len()
        invariant
            i <= sym.structs@.len(),
            n.wf(),
            struct_notes_ok(*sym),
            n.noted() == noted_structs(*sym, i as nat, old(n).noted()),
        decreases sym.structs@.len() - i,
    {
        let s: &StructInfo = &sym.structs[i];
        if s.type_params.len() == 0 {
            let ghost start: Noted = n.noted();
            let mut j: usize = 0;
            while j < s.fields.len()
                invariant
                    j <= s.fields@.len(),
                    i < sym.structs@.len(),
                    *s == sym.structs@[i as int],
                    !s.is_template(),
                    n.wf(),
                    struct_notes_ok(*sym),
                    n.noted() == noted_fields(*sym, s.fields@, j as nat, start),
                decreases s.fields@.len() - j,
            {
                assert(scan::note_ok(*sym, sym.structs@[i as int].fields@[j as int].ty));
                note_type(sym, &s.fields[j].ty, n);
                j += 1;
            }
        }
        i += 1;
    }
}

/// The structs and enums can be written.
pub open spec fn types_ok(sym: SymTab) -> bool {
    &&& struct_notes_ok(sym)
    &&& forall|i: int|
        0 <= i < layout::all_types(sym).len() ==> ref_ty_ok(sym, #[trigger] layout::all_types(sym)[i])
}

/// What is known once the structs have been seen.
pub open spec fn types_noted(sym: SymTab, n: Noted) -> Noted {
    noted_structs(sym, sym.structs@.len(), n)
}

/// The output `out`, then the forward declarations, the slices and vectors that structs hold,
/// and the definitions.
pub open spec fn with_types(sym: SymTab, out: Seq<char>, n: Noted) -> Seq<char> {
    let declared = out + struct_forwards(sym, sym.structs@.len()) + enum_forwards(
        sym,
        sym.enums@.len(),
    );
    let seen = types_noted(sym, n);
    let order = layout::type_order(sym);
    typedefs::with_vecs(typedefs::with_slices(declared, seen.slices), seen.vecs) + type_defs(
        sym,
        order,
        order.len(),
    ) + text::line_c(""@, ""@)
}

/// Writes the structs and enums.
pub fn emit_structs_and_enums<'a>(sym: &'a SymTab, out: &mut String, n: &mut Notes<'a>)
    requires
        old(n).wf(),
        types_ok(*sym),
    ensures
        final(n).wf(),
        final(n).noted() == types_noted(*sym, old(n).noted()),
        final(out)@ == with_types(*sym, old(out)@, old(n).noted()),
{
    out.append(&declare_structs(sym));
    out.append(&declare_enums(sym));
    note_structs(sym, n);
    emit_slice_typedefs(out, &n.slices);
    emit_vec_typedefs(out, &n.vecs);
    proof {
        let all = layout::all_types(*sym);
        assert forall|i: int| 0 <= i < all.len() implies layout::ref_embed_ok(*sym, #[trigger] all[i]) by {
            lemma_ref_embed(*sym, all[i]);
        }
        layout::law_types_defined_once(*sym);
    }
    let order: Vec<TypeRef> = order_types(sym);
    proof {
        let all = layout::all_types(*sym);
        assert forall|i: int| 0 <= i < order@.len() implies ref_ty_ok(
            *sym,
            #[trigger] order@[i],
        ) by {
            assert(order@.contains(order@[i]));
            let k = choose|k: int| 0 <= k < all.len() && all[k] == order@[i];
            assert(ref_ty_ok(*sym, all[k]));
        }
    }
    out.append(&define_types(sym, &order));
    out.append(&line("", ""));
}

} // verus!
