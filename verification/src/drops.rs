//! Ownership: which types own heap memory, and the C code that releases it.
use vstd::prelude::*;

use crate::hir::{EnumInfo, FieldInfo, HType, StructInfo, SymTab, VariantInfo};
use crate::sorted::SortedMap;
use crate::text;
use crate::text::{
    c_ident, cat2, cat3, cat4, cat5, cat6, cat9, dec_i64, dec_u64, deeper, line, own,
};

verus! {

/// A value of type `t` owns heap memory, given the names of the structs and
/// enums that do.
pub open spec fn ty_owns(sym: SymTab, owns: Set<Seq<char>>, t: HType) -> bool
    decreases t,
{
    match t {
        HType::OwnPtr { .. } | HType::Heap { .. } | HType::Vec { .. } => true,
        HType::Struct(id) => owns.contains(sym.the_struct(id).name@),
        HType::Enum(id) => owns.contains(sym.the_enum(id).name@),
        HType::Array { elem, .. } => ty_owns(sym, owns, *elem),
        _ => false,
    }
}

/// The struct or enum that a value of type `t` embeds is in the symbol table.
pub open spec fn embed_ok(sym: SymTab, t: HType) -> bool
    decreases t,
{
    match t {
        HType::Struct(id) => sym.has_struct(id),
        HType::Enum(id) => sym.has_enum(id),
        HType::Array { elem, .. } => embed_ok(sym, *elem),
        _ => true,
    }
}

/// Tests whether a value of the type owns heap memory.
pub fn drop_ty_owns(sym: &SymTab, owns: &SortedMap<String, ()>, t: &HType) -> (r: bool)
    requires
        owns.wf(),
        embed_ok(*sym, *t),
    ensures
        r == ty_owns(*sym, owns.dom(), *t),
    decreases t,
{
    match t {
        HType::OwnPtr { .. } | HType::Heap { .. } | HType::Vec { .. } => true,
        HType::Struct(id) => owns.contains(&sym.struct_info(*id).name),
        HType::Enum(id) => owns.contains(&sym.enum_info(*id).name),
        HType::Array { elem, .. } => drop_ty_owns(sym, owns, elem),
        _ => false,
    }
}

/// One of the fields owns heap memory.
pub open spec fn any_field_owns(sym: SymTab, owns: Set<Seq<char>>, fields: Seq<FieldInfo>) -> bool {
    exists|i: int| 0 <= i < fields.len() && ty_owns(sym, owns, (#[trigger] fields[i]).ty)
}

/// Every field embeds known types only.
pub open spec fn fields_embed_ok(sym: SymTab, fields: Seq<FieldInfo>) -> bool {
    forall|i: int| 0 <= i < fields.len() ==> embed_ok(sym, (#[trigger] fields[i]).ty)
}

fn fields_own(sym: &SymTab, owns: &SortedMap<String, ()>, fields: &Vec<FieldInfo>) -> (r: bool)
    requires
        owns.wf(),
        fields_embed_ok(*sym, fields@),
    ensures
        r == any_field_owns(*sym, owns.dom(), fields@),
{
    let total: usize = fields.len();
    let mut i: usize = 0;
    while i < total
        invariant
            i <= total,
            total == fields@.len(),
            owns.wf(),
            fields_embed_ok(*sym, fields@),
            forall|j: int| 0 <= j < i ==> !ty_owns(*sym, owns.dom(), (#[trigger] fields@[j]).ty),
        decreases total - i,
    {
        if drop_ty_owns(sym, owns, &fields[i].ty) {
            assert(ty_owns(*sym, owns.dom(), fields@[i as int].ty));
            return true;
        }
        i += 1;
    }
    false
}

/// The struct owns heap memory through one of its fields.
pub open spec fn struct_owns(sym: SymTab, owns: Set<Seq<char>>, s: StructInfo) -> bool {
    s.written() && any_field_owns(sym, owns, s.fields@)
}

/// The enum owns heap memory through a field of one of its variants.
pub open spec fn enum_owns(sym: SymTab, owns: Set<Seq<char>>, e: EnumInfo) -> bool {
    !e.simple() && exists|i: int|
        0 <= i < e.variants@.len() && any_field_owns(
            sym,
            owns,
            (#[trigger] e.variants@[i]).fields@,
        )
}

fn variants_own(sym: &SymTab, owns: &SortedMap<String, ()>, e: &EnumInfo) -> (r: bool)
    requires
        owns.wf(),
        enum_embed_ok(*sym, *e),
        !e.simple(),
    ensures
        r == enum_owns(*sym, owns.dom(), *e),
{
    let total: usize = e.variants.len();
    let mut i: usize = 0;
    while i < total
        invariant
            i <= total,
            total == e.variants@.len(),
            owns.wf(),
            enum_embed_ok(*sym, *e),
            !e.simple(),
            forall|j: int|
                0 <= j < i ==> !any_field_owns(
                    *sym,
                    owns.dom(),
                    (#[trigger] e.variants@[j]).fields@,
                ),
        decreases total - i,
    {
        if fields_own(sym, owns, &e.variants[i].fields) {
            assert(any_field_owns(*sym, owns.dom(), e.variants@[i as int].fields@));
            return true;
        }
        i += 1;
    }
    false
}

/// Every variant's fields embed known types only.
pub open spec fn enum_embed_ok(sym: SymTab, e: EnumInfo) -> bool {
    forall|i: int|
        0 <= i < e.variants@.len() ==> fields_embed_ok(sym, (#[trigger] e.variants@[i]).fields@)
}

/// The tables' structs and enums embed known types only.
pub open spec fn embeds_ok(sym: SymTab) -> bool {
    &&& forall|i: int|
        0 <= i < sym.structs@.len() && (#[trigger] sym.structs@[i]).written()
            ==> fields_embed_ok(sym, sym.structs@[i].fields@)
    &&& forall|i: int| 0 <= i < sym.enums@.len() ==> enum_embed_ok(sym, #[trigger] sym.enums@[i])
}

/// Every struct and enum that owns heap memory through its fields is in the set.
pub open spec fn owns_closed(sym: SymTab, owns: Set<Seq<char>>) -> bool {
    &&& forall|i: int|
        0 <= i < sym.structs@.len() && struct_owns(sym, owns, #[trigger] sym.structs@[i])
            ==> owns.contains(sym.structs@[i].name@)
    &&& forall|i: int|
        0 <= i < sym.enums@.len() && enum_owns(sym, owns, #[trigger] sym.enums@[i])
            ==> owns.contains(sym.enums@[i].name@)
}

/// The names of the structs and enums that own heap memory, directly or
/// through what they embed: those that are in every closed set.
pub open spec fn owning_names(sym: SymTab) -> Set<Seq<char>> {
    Set::new(
        |n: Seq<char>| forall|owns: Set<Seq<char>>| #[trigger] owns_closed(sym, owns) ==> owns.contains(n),
    )
}

proof fn lemma_ty_owns_grows(sym: SymTab, a: Set<Seq<char>>, b: Set<Seq<char>>, t: HType)
    requires
        a.subset_of(b),
        ty_owns(sym, a, t),
    ensures
        ty_owns(sym, b, t),
    decreases t,
{
    if let HType::Array { elem, .. } = t {
        lemma_ty_owns_grows(sym, a, b, *elem);
    }
}

/// Fields that own do so where more names own.
pub proof fn lemma_fields_own_grows(
    sym: SymTab,
    a: Set<Seq<char>>,
    b: Set<Seq<char>>,
    fields: Seq<FieldInfo>,
)
    requires
        a.subset_of(b),
        any_field_owns(sym, a, fields),
    ensures
        any_field_owns(sym, b, fields),
{
    let i = choose|i: int| 0 <= i < fields.len() && ty_owns(sym, a, (#[trigger] fields[i]).ty);
    lemma_ty_owns_grows(sym, a, b, fields[i].ty);
}

/// An enum that owns does so where more names own.
pub proof fn lemma_enum_owns_grows(sym: SymTab, a: Set<Seq<char>>, b: Set<Seq<char>>, e: EnumInfo)
    requires
        a.subset_of(b),
        enum_owns(sym, a, e),
    ensures
        enum_owns(sym, b, e),
{
    let i = choose|i: int|
        0 <= i < e.variants@.len() && any_field_owns(sym, a, (#[trigger] e.variants@[i]).fields@);
    lemma_fields_own_grows(sym, a, b, e.variants@[i].fields@);
}

/// Owning is closed: a struct or enum that owns heap memory through its
/// fields is itself among the owning names.
pub proof fn law_owning_names_closed(sym: SymTab)
    ensures
        owns_closed(sym, owning_names(sym)),
{
    let all = owning_names(sym);
    assert forall|i: int|
        0 <= i < sym.structs@.len() && struct_owns(sym, all, #[trigger] sym.structs@[i]) implies all.contains(
        sym.structs@[i].name@,
    ) by {
        let s = sym.structs@[i];
        assert forall|owns: Set<Seq<char>>| #[trigger] owns_closed(sym, owns) implies owns.contains(
            s.name@,
        ) by {
            assert(all.subset_of(owns));
            lemma_fields_own_grows(sym, all, owns, s.fields@);
        }
    }
    assert forall|i: int|
        0 <= i < sym.enums@.len() && enum_owns(sym, all, #[trigger] sym.enums@[i]) implies all.contains(
        sym.enums@[i].name@,
    ) by {
        let e = sym.enums@[i];
        assert forall|owns: Set<Seq<char>>| #[trigger] owns_closed(sym, owns) implies owns.contains(
            e.name@,
        ) by {
            assert(all.subset_of(owns));
            lemma_enum_owns_grows(sym, all, owns, e);
        }
    }
}

/// How many of the first `n` structs and `m` enums are not in the set.
spec fn missing(sym: SymTab, owns: Set<Seq<char>>, n: nat, m: nat) -> nat
    decreases n + m,
{
    if n > 0 {
        (if owns.contains(sym.structs@[n - 1].name@) { 0nat } else { 1nat }) + missing(
            sym,
            owns,
            (n - 1) as nat,
            m,
        )
    } else if m > 0 {
        (if owns.contains(sym.enums@[m - 1].name@) { 0nat } else { 1nat }) + missing(
            sym,
            owns,
            n,
            (m - 1) as nat,
        )
    } else {
        0
    }
}

proof fn lemma_missing_shrinks(sym: SymTab, a: Set<Seq<char>>, b: Set<Seq<char>>, n: nat, m: nat)
    requires
        a.subset_of(b),
    ensures
        missing(sym, b, n, m) <= missing(sym, a, n, m),
        (exists|i: int|
            0 <= i < n && !a.contains((#[trigger] sym.structs@[i]).name@) && b.contains(
                sym.structs@[i].name@,
            )) ==> missing(sym, b, n, m) < missing(sym, a, n, m),
        (exists|i: int|
            0 <= i < m && !a.contains((#[trigger] sym.enums@[i]).name@) && b.contains(
                sym.enums@[i].name@,
            )) ==> missing(sym, b, n, m) < missing(sym, a, n, m),
    decreases n + m,
{
    if n > 0 {
        lemma_missing_shrinks(sym, a, b, (n - 1) as nat, m);
        if exists|i: int|
            0 <= i < n && !a.contains((#[trigger] sym.structs@[i]).name@) && b.contains(
                sym.structs@[i].name@,
            ) {
            let i = choose|i: int|
                0 <= i < n && !a.contains((#[trigger] sym.structs@[i]).name@) && b.contains(
                    sym.structs@[i].name@,
                );
            if i < n - 1 {
                assert(!a.contains(sym.structs@[i].name@));
            }
        }
    } else if m > 0 {
        lemma_missing_shrinks(sym, a, b, n, (m - 1) as nat);
        if exists|i: int|
            0 <= i < m && !a.contains((#[trigger] sym.enums@[i]).name@) && b.contains(
                sym.enums@[i].name@,
            ) {
            let i = choose|i: int|
                0 <= i < m && !a.contains((#[trigger] sym.enums@[i]).name@) && b.contains(
                    sym.enums@[i].name@,
                );
            if i < m - 1 {
                assert(!a.contains(sym.enums@[i].name@));
            }
        }
    }
}

/// The set holds nothing that is not in every closed set.
spec fn justified(sym: SymTab, owns: Set<Seq<char>>) -> bool {
    owns.subset_of(owning_names(sym))
}

proof fn lemma_justified_struct(sym: SymTab, owns: Set<Seq<char>>, i: int)
    requires
        justified(sym, owns),
        0 <= i < sym.structs@.len(),
        struct_owns(sym, owns, sym.structs@[i]),
    ensures
        justified(sym, owns.insert(sym.structs@[i].name@)),
{
    let s = sym.structs@[i];
    law_owning_names_closed(sym);
    lemma_fields_own_grows(sym, owns, owning_names(sym), s.fields@);
    assert(struct_owns(sym, owning_names(sym), sym.structs@[i]));
}

proof fn lemma_justified_enum(sym: SymTab, owns: Set<Seq<char>>, i: int)
    requires
        justified(sym, owns),
        0 <= i < sym.enums@.len(),
        enum_owns(sym, owns, sym.enums@[i]),
    ensures
        justified(sym, owns.insert(sym.enums@[i].name@)),
{
    law_owning_names_closed(sym);
    lemma_enum_owns_grows(sym, owns, owning_names(sym), sym.enums@[i]);
    assert(enum_owns(sym, owning_names(sym), sym.enums@[i]));
}

/// Adds the structs that own through what is already known. Says whether any was new.
fn add_structs(sym: &SymTab, owns: &mut SortedMap<String, ()>) -> (changed: bool)
    requires
        old(owns).wf(),
        embeds_ok(*sym),
        justified(*sym, old(owns).dom()),
    ensures
        final(owns).wf(),
        justified(*sym, final(owns).dom()),
        old(owns).dom().subset_of(final(owns).dom()),
        !changed ==> final(owns).dom() == old(owns).dom() && (forall|i: int|
            0 <= i < sym.structs@.len() && struct_owns(
                *sym,
                old(owns).dom(),
                #[trigger] sym.structs@[i],
            ) ==> old(owns).dom().contains(sym.structs@[i].name@)),
        changed ==> (exists|i: int|
            0 <= i < sym.structs@.len() && !old(owns).dom().contains(
                (#[trigger] sym.structs@[i]).name@,
            ) && final(owns).dom().contains(sym.structs@[i].name@)),
{
    let ghost start: Set<Seq<char>> = owns.dom();
    let total: usize = sym.structs.len();
    let mut changed: bool = false;
    let mut i: usize = 0;
    while i < total
        invariant
            i <= total,
            total == sym.structs@.len(),
            owns.wf(),
            embeds_ok(*sym),
            justified(*sym, owns.dom()),
            start.subset_of(owns.dom()),
            !changed ==> owns.dom() == start && (forall|j: int|
                0 <= j < i && struct_owns(*sym, start, #[trigger] sym.structs@[j])
                    ==> start.contains(sym.structs@[j].name@)),
            changed ==> (exists|j: int|
                0 <= j < sym.structs@.len() && !start.contains((#[trigger] sym.structs@[j]).name@)
                    && owns.dom().contains(sym.structs@[j].name@)),
        decreases total - i,
    {
        let s: &StructInfo = &sym.structs[i];
        if s.is_written() && !owns.contains(&s.name) && fields_own(sym, owns, &s.fields) {
            proof {
                lemma_justified_struct(*sym, owns.dom(), i as int);
            }
            owns.insert(own(&s.name), ());
            changed = true;
            assert(!start.contains(sym.structs@[i as int].name@));
        }
        i += 1;
    }
    changed
}

/// Adds the enums that own through what is already known. Says whether any was new.
fn add_enums(sym: &SymTab, owns: &mut SortedMap<String, ()>) -> (changed: bool)
    requires
        old(owns).wf(),
        embeds_ok(*sym),
        justified(*sym, old(owns).dom()),
    ensures
        final(owns).wf(),
        justified(*sym, final(owns).dom()),
        old(owns).dom().subset_of(final(owns).dom()),
        !changed ==> final(owns).dom() == old(owns).dom() && (forall|i: int|
            0 <= i < sym.enums@.len() && enum_owns(*sym, old(owns).dom(), #[trigger] sym.enums@[i])
                ==> old(owns).dom().contains(sym.enums@[i].name@)),
        changed ==> (exists|i: int|
            0 <= i < sym.enums@.len() && !old(owns).dom().contains(
                (#[trigger] sym.enums@[i]).name@,
            ) && final(owns).dom().contains(sym.enums@[i].name@)),
{
    let ghost start: Set<Seq<char>> = owns.dom();
    let total: usize = sym.enums.len();
    let mut changed: bool = false;
    let mut i: usize = 0;
    while i < total
        invariant
            i <= total,
            total == sym.enums@.len(),
            owns.wf(),
            embeds_ok(*sym),
            justified(*sym, owns.dom()),
            start.subset_of(owns.dom()),
            !changed ==> owns.dom() == start && (forall|j: int|
                0 <= j < i && enum_owns(*sym, start, #[trigger] sym.enums@[j]) ==> start.contains(
                    sym.enums@[j].name@,
                )),
            changed ==> (exists|j: int|
                0 <= j < sym.enums@.len() && !start.contains((#[trigger] sym.enums@[j]).name@)
                    && owns.dom().contains(sym.enums@[j].name@)),
        decreases total - i,
    {
        let e: &EnumInfo = &sym.enums[i];
        if !e.is_simple() && !owns.contains(&e.name) && variants_own(sym, owns, e) {
            proof {
                lemma_justified_enum(*sym, owns.dom(), i as int);
            }
            owns.insert(own(&e.name), ());
            changed = true;
            assert(!start.contains(sym.enums@[i as int].name@));
        }
        i += 1;
    }
    changed
}

/// Finds every struct and enum that owns heap memory, directly or through what
/// it embeds: passes over the tables until one finds nothing new.
pub fn compute_drop_owns(sym: &SymTab) -> (r: SortedMap<String, ()>)
    requires
        embeds_ok(*sym),
    ensures
        r.wf(),
        r.dom() == owning_names(*sym),
{
    let mut owns: SortedMap<String, ()> = SortedMap::new();
    let ghost n: nat = sym.structs@.len();
    let ghost m: nat = sym.enums@.len();
    loop
        invariant
            owns.wf(),
            embeds_ok(*sym),
            justified(*sym, owns.dom()),
            n == sym.structs@.len(),
            m == sym.enums@.len(),
        ensures
            owns.wf(),
            owns.dom() == owning_names(*sym),
        decreases missing(*sym, owns.dom(), n, m),
    {
        let ghost start: Set<Seq<char>> = owns.dom();
        let new_structs: bool = add_structs(sym, &mut owns);
        let ghost mid: Set<Seq<char>> = owns.dom();
        let new_enums: bool = add_enums(sym, &mut owns);
        proof {
            lemma_missing_shrinks(*sym, start, mid, n, m);
            lemma_missing_shrinks(*sym, mid, owns.dom(), n, m);
        }
        if !new_structs && !new_enums {
            assert(owns_closed(*sym, owns.dom()));
            assert(owns.dom() =~= owning_names(*sym));
            break;
        }
    }
    owns
}

/// Everything that the code releasing a value of type `t` names is in the symbol table.
pub open spec fn drop_ok(sym: SymTab, t: HType) -> bool
    decreases t,
{
    match t {
        HType::Struct(id) => sym.has_struct(id),
        HType::Enum(id) => sym.has_enum(id),
        HType::OwnPtr { inner, .. } => drop_ok(sym, *inner),
        HType::Heap { inner } => drop_ok(sym, *inner),
        HType::Array { elem, .. } => drop_ok(sym, *elem),
        HType::Vec { elem } => drop_ok(sym, *elem),
        _ => true,
    }
}

/// Whatever can be released can be asked what it owns.
pub proof fn lemma_drop_embed(sym: SymTab, t: HType)
    requires
        drop_ok(sym, t),
    ensures
        embed_ok(sym, t),
    decreases t,
{
    if let HType::Array { elem, .. } = t {
        lemma_drop_embed(sym, *elem);
    }
}

/// The loop over a vector's elements that releases each, given the code for one.
pub open spec fn vec_loop_head(lv: Seq<char>, i: Seq<char>) -> Seq<char> {
    "for (size_t "@ + i + " = 0; "@ + i + " < ("@ + lv + ").len; "@ + i + "++) {"@
}

/// The statements that release what the lvalue `lv` of type `t` holds, and `lv`
/// itself where it is an owning pointer.
pub open spec fn field_drop_c(
    sym: SymTab,
    owns: Set<Seq<char>>,
    ind: Seq<char>,
    lv: Seq<char>,
    t: HType,
    depth: u64,
) -> Seq<char>
    decreases t, 1nat,
{
    match t {
        HType::OwnPtr { inner, .. } => text::line_c(ind, "if ("@ + lv + ") {"@) + pointee_drop_c(
            sym,
            owns,
            text::deeper_c(ind),
            lv,
            *inner,
            depth,
        ) + text::line_c(text::deeper_c(ind), "free("@ + lv + ");"@) + text::line_c(ind, "}"@),
        HType::Heap { inner } => match *inner {
            HType::Vec { elem } => vec_drop_c(sym, owns, ind, lv, *elem, depth),
            _ => text::line_c(ind, "if ("@ + lv + ") {"@) + pointee_drop_c(
                sym,
                owns,
                text::deeper_c(ind),
                lv,
                *inner,
                depth,
            ) + text::line_c(text::deeper_c(ind), "free("@ + lv + ");"@) + text::line_c(ind, "}"@),
        },
        HType::Struct(id) => if ty_owns(sym, owns, t) {
            text::line_c(ind, "__maka_drop_"@ + text::ident(sym.the_struct(id).name@) + "(&("@ + lv + "));"@)
        } else {
            ""@
        },
        HType::Enum(id) => if ty_owns(sym, owns, t) {
            text::line_c(ind, "__maka_drop_"@ + text::ident(sym.the_enum(id).name@) + "(&("@ + lv + "));"@)
        } else {
            ""@
        },
        HType::Array { len, elem } => if ty_owns(sym, owns, *elem) {
            let i = "__d"@ + text::decimal(depth as int);
            text::line_c(
                ind,
                "for (maka_int "@ + i + " = 0; "@ + i + " < "@ + text::decimal(len as int) + "; "@ + i
                    + "++) {"@,
            ) + field_drop_c(
                sym,
                owns,
                text::deeper_c(ind),
                "("@ + lv + ")["@ + i + "]"@,
                *elem,
                depth.wrapping_add(1),
            ) + text::line_c(ind, "}"@)
        } else {
            ""@
        },
        HType::Vec { elem } => vec_drop_c(sym, owns, ind, lv, *elem, depth),
        _ => ""@,
    }
}

/// The statements that release a vector's owning elements and its buffer.
pub open spec fn vec_drop_c(
    sym: SymTab,
    owns: Set<Seq<char>>,
    ind: Seq<char>,
    lv: Seq<char>,
    elem: HType,
    depth: u64,
) -> Seq<char>
    decreases elem, 2nat,
{
    let free = text::line_c(ind, "free("@ + lv + ".data);"@);
    if ty_owns(sym, owns, elem) {
        let i = "__v"@ + text::decimal(depth as int);
        text::line_c(ind, vec_loop_head(lv, i)) + field_drop_c(
            sym,
            owns,
            text::deeper_c(ind),
            "("@ + lv + ").data["@ + i + "]"@,
            elem,
            depth.wrapping_add(1),
        ) + text::line_c(ind, "}"@) + free
    } else {
        free
    }
}

/// The statements that release what the pointee of `ptr` owns, not `ptr` itself. A pointer
/// to a fixed array is a pointer to its first element.
pub open spec fn pointee_drop_c(
    sym: SymTab,
    owns: Set<Seq<char>>,
    ind: Seq<char>,
    ptr: Seq<char>,
    pointee: HType,
    depth: u64,
) -> Seq<char>
    decreases pointee, 2nat,
{
    if !ty_owns(sym, owns, pointee) {
        ""@
    } else {
        match pointee {
            HType::Struct(id) => text::line_c(
                ind,
                "__maka_drop_"@ + text::ident(sym.the_struct(id).name@) + "("@ + ptr + ");"@,
            ),
            HType::Enum(id) => text::line_c(
                ind,
                "__maka_drop_"@ + text::ident(sym.the_enum(id).name@) + "("@ + ptr + ");"@,
            ),
            HType::Array { .. } => field_drop_c(sym, owns, ind, ptr, pointee, depth),
            HType::OwnPtr { .. } | HType::Heap { .. } | HType::Vec { .. } => field_drop_c(
                sym,
                owns,
                ind,
                "(*("@ + ptr + "))"@,
                pointee,
                depth,
            ),
            _ => ""@,
        }
    }
}

/// Writes the statements that release what the lvalue `lv` holds.
pub fn emit_field_drop(
    sym: &SymTab,
    owns: &SortedMap<String, ()>,
    ind: &str,
    lv: &str,
    t: &HType,
    depth: u64,
) -> (r: String)
    requires
        owns.wf(),
        drop_ok(*sym, *t),
    ensures
        r@ == field_drop_c(*sym, owns.dom(), ind@, lv@, *t, depth),
    decreases t, 1nat,
{
    proof {
        lemma_drop_embed(*sym, *t);
    }
    match t {
        HType::OwnPtr { inner, .. } => {
            let ind2: String = deeper(ind);
            cat4(
                &line(ind, &cat3("if (", lv, ") {")),
                &emit_pointee_drop(sym, owns, &ind2, lv, inner, depth),
                &line(&ind2, &cat3("free(", lv, ");")),
                &line(ind, "}"),
            )
        },
        HType::Heap { inner } => match &**inner {
            HType::Vec { elem } => {
                assert(drop_ok(*sym, **inner));
                emit_vec_drop(sym, owns, ind, lv, elem, depth)
            },
            _ => {
                let ind2: String = deeper(ind);
                cat4(
                    &line(ind, &cat3("if (", lv, ") {")),
                    &emit_pointee_drop(sym, owns, &ind2, lv, inner, depth),
                    &line(&ind2, &cat3("free(", lv, ");")),
                    &line(ind, "}"),
                )
            },
        },
        HType::Struct(id) => if drop_ty_owns(sym, owns, t) {
            line(
                ind,
                &cat5("__maka_drop_", &c_ident(&sym.struct_info(*id).name), "(&(", lv, "));"),
            )
        } else {
            own("")
        },
        HType::Enum(id) => if drop_ty_owns(sym, owns, t) {
            line(
                ind,
                &cat5("__maka_drop_", &c_ident(&sym.enum_info(*id).name), "(&(", lv, "));"),
            )
        } else {
            own("")
        },
        HType::Array { len, elem } => {
            proof {
                lemma_drop_embed(*sym, **elem);
            }
            if drop_ty_owns(sym, owns, elem) {
                let i: String = cat2("__d", &dec_u64(depth));
                let head: String = cat9(
                    "for (maka_int ",
                    &i,
                    " = 0; ",
                    &i,
                    " < ",
                    &dec_i64(*len),
                    "; ",
                    &i,
                    "++) {",
                );
                let elem_lv: String = cat5("(", lv, ")[", &i, "]");
                cat3(
                    &line(ind, &head),
                    &emit_field_drop(
                        sym,
                        owns,
                        &deeper(ind),
                        &elem_lv,
                        elem,
                        depth.wrapping_add(1),
                    ),
                    &line(ind, "}"),
                )
            } else {
                own("")
            }
        },
        HType::Vec { elem } => emit_vec_drop(sym, owns, ind, lv, elem, depth),
        _ => own(""),
    }
}

fn emit_vec_drop(
    sym: &SymTab,
    owns: &SortedMap<String, ()>,
    ind: &str,
    lv: &str,
    elem: &HType,
    depth: u64,
) -> (r: String)
    requires
        owns.wf(),
        drop_ok(*sym, *elem),
    ensures
        r@ == vec_drop_c(*sym, owns.dom(), ind@, lv@, *elem, depth),
    decreases elem, 2nat,
{
    proof {
        lemma_drop_embed(*sym, *elem);
    }
    let free: String = line(ind, &cat3("free(", lv, ".data);"));
    if drop_ty_owns(sym, owns, elem) {
        let i: String = cat2("__v", &dec_u64(depth));
        let head: String = cat9(
            "for (size_t ",
            &i,
            " = 0; ",
            &i,
            " < (",
            lv,
            ").len; ",
            &i,
            "++) {",
        );
        let elem_lv: String = cat5("(", lv, ").data[", &i, "]");
        cat4(
            &line(ind, &head),
            &emit_field_drop(sym, owns, &deeper(ind), &elem_lv, elem, depth.wrapping_add(1)),
            &line(ind, "}"),
            &free,
        )
    } else {
        free
    }
}

/// Writes the statements that release what the pointee of `ptr` owns.
pub fn emit_pointee_drop(
    sym: &SymTab,
    owns: &SortedMap<String, ()>,
    ind: &str,
    ptr: &str,
    pointee: &HType,
    depth: u64,
) -> (r: String)
    requires
        owns.wf(),
        drop_ok(*sym, *pointee),
    ensures
        r@ == pointee_drop_c(*sym, owns.dom(), ind@, ptr@, *pointee, depth),
    decreases pointee, 2nat,
{
    proof {
        lemma_drop_embed(*sym, *pointee);
    }
    if !drop_ty_owns(sym, owns, pointee) {
        return own("");
    }
    match pointee {
        HType::Struct(id) => line(
            ind,
            &cat5("__maka_drop_", &c_ident(&sym.struct_info(*id).name), "(", ptr, ");"),
        ),
        HType::Enum(id) => line(
            ind,
            &cat5("__maka_drop_", &c_ident(&sym.enum_info(*id).name), "(", ptr, ");"),
        ),
        HType::Array { .. } => emit_field_drop(sym, owns, ind, ptr, pointee, depth),
        HType::OwnPtr { .. } | HType::Heap { .. } | HType::Vec { .. } => emit_field_drop(
            sym,
            owns,
            ind,
            &cat3("(*(", ptr, "))"),
            pointee,
            depth,
        ),
        _ => own(""),
    }
}

/// Everything that the code releasing the fields names is in the symbol table.
pub open spec fn fields_drop_ok(sym: SymTab, fields: Seq<FieldInfo>) -> bool {
    forall|i: int| 0 <= i < fields.len() ==> drop_ok(sym, (#[trigger] fields[i]).ty)
}

/// [`fields_drop_ok`] of every variant.
pub open spec fn enum_drop_ok(sym: SymTab, e: EnumInfo) -> bool {
    forall|i: int|
        0 <= i < e.variants@.len() ==> fields_drop_ok(sym, (#[trigger] e.variants@[i]).fields@)
}

/// [`fields_drop_ok`] of every struct and enum that can have drop glue.
pub open spec fn drops_ok(sym: SymTab) -> bool {
    &&& forall|i: int|
        0 <= i < sym.structs@.len() && (#[trigger] sym.structs@[i]).written()
            ==> fields_drop_ok(sym, sym.structs@[i].fields@)
    &&& forall|i: int| 0 <= i < sym.enums@.len() ==> enum_drop_ok(sym, #[trigger] sym.enums@[i])
}

proof fn lemma_fields_drop_embed(sym: SymTab, fields: Seq<FieldInfo>)
    requires
        fields_drop_ok(sym, fields),
    ensures
        fields_embed_ok(sym, fields),
{
    assert forall|i: int| 0 <= i < fields.len() implies embed_ok(sym, (#[trigger] fields[i]).ty) by {
        lemma_drop_embed(sym, fields[i].ty);
    }
}

/// What can be released can be analysed for ownership.
pub proof fn lemma_drops_embed(sym: SymTab)
    requires
        drops_ok(sym),
    ensures
        embeds_ok(sym),
{
    assert forall|i: int|
        0 <= i < sym.structs@.len() && (#[trigger] sym.structs@[i]).written() implies fields_embed_ok(sym, sym.structs@[i].fields@) by {
        lemma_fields_drop_embed(sym, sym.structs@[i].fields@);
    }
    assert forall|i: int| 0 <= i < sym.enums@.len() implies enum_embed_ok(
        sym,
        #[trigger] sym.enums@[i],
    ) by {
        let e = sym.enums@[i];
        assert forall|j: int| 0 <= j < e.variants@.len() implies fields_embed_ok(
            sym,
            (#[trigger] e.variants@[j]).fields@,
        ) by {
            lemma_fields_drop_embed(sym, e.variants@[j].fields@);
        }
    }
}

/// The struct gets drop glue.
pub open spec fn glued_struct(owns: Set<Seq<char>>, s: StructInfo) -> bool {
    s.written() && owns.contains(s.name@)
}

/// The enum gets drop glue.
pub open spec fn glued_enum(owns: Set<Seq<char>>, e: EnumInfo) -> bool {
    !e.simple() && owns.contains(e.name@)
}

/// The head of the drop function for the type called `name`, up to the closing bracket.
pub open spec fn drop_head(name: Seq<char>) -> Seq<char> {
    "static void __maka_drop_"@ + text::ident(name) + "(struct "@ + text::ident(name) + "* p)"@
}

fn drop_function_head(name: &str) -> (r: String)
    ensures
        r@ == drop_head(name@),
{
    let n: String = c_ident(name);
    cat5("static void __maka_drop_", &n, "(struct ", &n, "* p)")
}

/// The declarations of the drop functions of the first `n` structs.
pub open spec fn struct_glue_decls(sym: SymTab, owns: Set<Seq<char>>, n: nat) -> Seq<char>
    decreases n,
{
    if n == 0 || n > sym.structs@.len() {
        ""@
    } else {
        let s = sym.structs@[n - 1];
        let before = struct_glue_decls(sym, owns, (n - 1) as nat);
        if glued_struct(owns, s) {
            before + text::line_c(""@, drop_head(s.name@) + ";"@)
        } else {
            before
        }
    }
}

/// The declarations of the drop functions of the first `n` enums.
pub open spec fn enum_glue_decls(sym: SymTab, owns: Set<Seq<char>>, n: nat) -> Seq<char>
    decreases n,
{
    if n == 0 || n > sym.enums@.len() {
        ""@
    } else {
        let e = sym.enums@[n - 1];
        let before = enum_glue_decls(sym, owns, (n - 1) as nat);
        if glued_enum(owns, e) {
            before + text::line_c(""@, drop_head(e.name@) + ";"@)
        } else {
            before
        }
    }
}

/// The code that releases the first `n` fields of what `prefix` leads to.
pub open spec fn fields_drop_c(
    sym: SymTab,
    owns: Set<Seq<char>>,
    ind: Seq<char>,
    prefix: Seq<char>,
    fields: Seq<FieldInfo>,
    n: nat,
) -> Seq<char>
    decreases n,
{
    if n == 0 || n > fields.len() {
        ""@
    } else {
        let f = fields[n - 1];
        let before = fields_drop_c(sym, owns, ind, prefix, fields, (n - 1) as nat);
        if ty_owns(sym, owns, f.ty) {
            before + field_drop_c(sym, owns, ind, prefix + text::ident(f.name@), f.ty, 0)
        } else {
            before
        }
    }
}

fn drop_fields(
    sym: &SymTab,
    owns: &SortedMap<String, ()>,
    ind: &str,
    prefix: &str,
    fields: &Vec<FieldInfo>,
) -> (r: String)
    requires
        owns.wf(),
        fields_drop_ok(*sym, fields@),
    ensures
        r@ == fields_drop_c(*sym, owns.dom(), ind@, prefix@, fields@, fields@.len()),
{
    let mut out: String = own("");
    let mut i: usize = 0;
    while i < fields.len()
        invariant
            i <= fields@.len(),
            owns.wf(),
            fields_drop_ok(*sym, fields@),
            out@ == fields_drop_c(*sym, owns.dom(), ind@, prefix@, fields@, i as nat),
        decreases fields@.len() - i,
    {
        let f: &FieldInfo = &fields[i];
        proof {
            lemma_drop_embed(*sym, f.ty);
        }
        if drop_ty_owns(sym, owns, &f.ty) {
            let lv: String = cat2(prefix, &c_ident(&f.name));
            out.append(&emit_field_drop(sym, owns, ind, &lv, &f.ty, 0));
        }
        i += 1;
    }
    out
}

/// The drop functions of the first `n` structs.
pub open spec fn struct_glue_bodies(sym: SymTab, owns: Set<Seq<char>>, n: nat) -> Seq<char>
    decreases n,
{
    if n == 0 || n > sym.structs@.len() {
        ""@
    } else {
        let s = sym.structs@[n - 1];
        let before = struct_glue_bodies(sym, owns, (n - 1) as nat);
        if glued_struct(owns, s) {
            before + text::line_c(""@, drop_head(s.name@) + " {"@) + fields_drop_c(
                sym,
                owns,
                text::deeper_c(""@),
                "p->"@,
                s.fields@,
                s.fields@.len(),
            ) + text::line_c(""@, "}"@)
        } else {
            before
        }
    }
}

/// The cases of an enum's drop function for its first `n` variants.
pub open spec fn variant_drops(
    sym: SymTab,
    owns: Set<Seq<char>>,
    ind: Seq<char>,
    e: EnumInfo,
    n: nat,
) -> Seq<char>
    decreases n,
{
    if n == 0 || n > e.variants@.len() {
        ""@
    } else {
        let v = e.variants@[n - 1];
        let before = variant_drops(sym, owns, ind, e, (n - 1) as nat);
        if any_field_owns(sym, owns, v.fields@) {
            before + text::line_c(ind, "case "@ + text::decimal(v.tag as int) + ": {"@) + fields_drop_c(
                sym,
                owns,
                text::deeper_c(ind),
                "p->payload."@ + text::ident(v.name@) + "."@,
                v.fields@,
                v.fields@.len(),
            ) + text::line_c(ind, "} break;"@)
        } else {
            before
        }
    }
}

/// The drop functions of the first `n` enums.
pub open spec fn enum_glue_bodies(sym: SymTab, owns: Set<Seq<char>>, n: nat) -> Seq<char>
    decreases n,
{
    if n == 0 || n > sym.enums@.len() {
        ""@
    } else {
        let e = sym.enums@[n - 1];
        let before = enum_glue_bodies(sym, owns, (n - 1) as nat);
        if glued_enum(owns, e) {
            before + text::line_c(""@, drop_head(e.name@) + " {"@) + text::line_c(
                text::deeper_c(""@),
                "switch (p->tag) {"@,
            ) + variant_drops(sym, owns, text::deeper_c(text::deeper_c(""@)), e, e.variants@.len()) + text::line_c(
                text::deeper_c(""@),
                "}"@,
            ) + text::line_c(""@, "}"@)
        } else {
            before
        }
    }
}

/// Some struct or enum gets drop glue.
pub open spec fn any_glue(sym: SymTab, owns: Set<Seq<char>>) -> bool {
    ||| exists|i: int| 0 <= i < sym.structs@.len() && glued_struct(owns, #[trigger] sym.structs@[i])
    ||| exists|i: int| 0 <= i < sym.enums@.len() && glued_enum(owns, #[trigger] sym.enums@[i])
}

/// The drop functions of every owning struct and enum, all declared before the first
/// is defined.
pub open spec fn drop_glue_c(sym: SymTab, owns: Set<Seq<char>>) -> Seq<char> {
    if any_glue(sym, owns) {
        text::line_c(""@, "/* ---- recursive drop glue ---- */"@) + struct_glue_decls(
            sym,
            owns,
            sym.structs@.len(),
        ) + enum_glue_decls(sym, owns, sym.enums@.len()) + struct_glue_bodies(
            sym,
            owns,
            sym.structs@.len(),
        ) + enum_glue_bodies(sym, owns, sym.enums@.len()) + text::line_c(""@, ""@)
    } else {
        ""@
    }
}

fn variant_cases(
    sym: &SymTab,
    owns: &SortedMap<String, ()>,
    ind: &str,
    e: &EnumInfo,
) -> (r: String)
    requires
        owns.wf(),
        enum_drop_ok(*sym, *e),
    ensures
        r@ == variant_drops(*sym, owns.dom(), ind@, *e, e.variants@.len()),
{
    let ind2: String = deeper(ind);
    let mut out: String = own("");
    let mut i: usize = 0;
    while i < e.variants.len()
        invariant
            i <= e.variants@.len(),
            owns.wf(),
            enum_drop_ok(*sym, *e),
            ind2@ == text::deeper_c(ind@),
            out@ == variant_drops(*sym, owns.dom(), ind@, *e, i as nat),
        decreases e.variants@.len() - i,
    {
        let v: &VariantInfo = &e.variants[i];
        proof {
            lemma_fields_drop_embed(*sym, v.fields@);
        }
        if fields_own(sym, owns, &v.fields) {
            let prefix: String = cat3("p->payload.", &c_ident(&v.name), ".");
            out.append(&line(ind, &cat3("case ", &dec_i64(v.tag), ": {")));
            out.append(&drop_fields(sym, owns, &ind2, &prefix, &v.fields));
            out.append(&line(ind, "} break;"));
        }
        i += 1;
    }
    out
}

fn struct_glue(sym: &SymTab, owns: &SortedMap<String, ()>) -> (r: (String, String, bool))
    requires
        owns.wf(),
        drops_ok(*sym),
    ensures
        r.0@ == struct_glue_decls(*sym, owns.dom(), sym.structs@.len()),
        r.1@ == struct_glue_bodies(*sym, owns.dom(), sym.structs@.len()),
        r.2 == (exists|i: int|
            0 <= i < sym.structs@.len() && glued_struct(owns.dom(), #[trigger] sym.structs@[i])),
{
    let mut decls: String = own("");
    let mut bodies: String = own("");
    let mut any: bool = false;
    let ind: String = deeper("");
    let mut i: usize = 0;
    while i < sym.structs.len()
        invariant
            i <= sym.structs@.len(),
            owns.wf(),
            drops_ok(*sym),
            ind@ == text::deeper_c(""@),
            decls@ == struct_glue_decls(*sym, owns.dom(), i as nat),
            bodies@ == struct_glue_bodies(*sym, owns.dom(), i as nat),
            any == (exists|j: int|
                0 <= j < i && glued_struct(owns.dom(), #[trigger] sym.structs@[j])),
        decreases sym.structs@.len() - i,
    {
        let s: &StructInfo = &sym.structs[i];
        if s.is_written() && owns.contains(&s.name) {
            assert(glued_struct(owns.dom(), sym.structs@[i as int]));
            any = true;
            let head: String = drop_function_head(&s.name);
            decls.append(&line("", &cat2(&head, ";")));
            bodies.append(&line("", &cat2(&head, " {")));
            bodies.append(&drop_fields(sym, owns, &ind, "p->", &s.fields));
            bodies.append(&line("", "}"));
        }
        i += 1;
    }
    (decls, bodies, any)
}

fn enum_glue(sym: &SymTab, owns: &SortedMap<String, ()>) -> (r: (String, String, bool))
    requires
        owns.wf(),
        drops_ok(*sym),
    ensures
        r.0@ == enum_glue_decls(*sym, owns.dom(), sym.enums@.len()),
        r.1@ == enum_glue_bodies(*sym, owns.dom(), sym.enums@.len()),
        r.2 == (exists|i: int|
            0 <= i < sym.enums@.len() && glued_enum(owns.dom(), #[trigger] sym.enums@[i])),
{
    let mut decls: String = own("");
    let mut bodies: String = own("");
    let mut any: bool = false;
    let ind: String = deeper("");
    let ind2: String = deeper(&ind);
    let mut i: usize = 0;
    while i < sym.enums.len()
        invariant
            i <= sym.enums@.len(),
            owns.wf(),
            drops_ok(*sym),
            ind@ == text::deeper_c(""@),
            ind2@ == text::deeper_c(text::deeper_c(""@)),
            decls@ == enum_glue_decls(*sym, owns.dom(), i as nat),
            bodies@ == enum_glue_bodies(*sym, owns.dom(), i as nat),
            any == (exists|j: int|
                0 <= j < i && glued_enum(owns.dom(), #[trigger] sym.enums@[j])),
        decreases sym.enums@.len() - i,
    {
        let e: &EnumInfo = &sym.enums[i];
        if !e.is_simple() && owns.contains(&e.name) {
            assert(glued_enum(owns.dom(), sym.enums@[i as int]));
            any = true;
            let head: String = drop_function_head(&e.name);
            decls.append(&line("", &cat2(&head, ";")));
            bodies.append(&line("", &cat2(&head, " {")));
            bodies.append(&line(&ind, "switch (p->tag) {"));
            bodies.append(&variant_cases(sym, owns, &ind2, e));
            bodies.append(&line(&ind, "}"));
            bodies.append(&line("", "}"));
        }
        i += 1;
    }
    (decls, bodies, any)
}

/// Writes the drop functions of every owning struct and enum.
pub fn emit_drop_glue(sym: &SymTab, owns: &SortedMap<String, ()>) -> (r: String)
    requires
        owns.wf(),
        drops_ok(*sym),
    ensures
        r@ == drop_glue_c(*sym, owns.dom()),
{
    let (struct_decls, struct_bodies, any_struct) = struct_glue(sym, owns);
    let (enum_decls, enum_bodies, any_enum) = enum_glue(sym, owns);
    if !any_struct && !any_enum {
        return own("");
    }
    cat6(
        &line("", "/* ---- recursive drop glue ---- */"),
        &struct_decls,
        &enum_decls,
        &struct_bodies,
        &enum_bodies,
        &line("", ""),
    )
}

proof fn lemma_line_not_empty(ind: Seq<char>, text: Seq<char>)
    ensures
        text::line_c(ind, text).len() > 0,
{
    reveal_strlit("\n");
}

proof fn lemma_vec_drop_not_empty(
    sym: SymTab,
    owns: Set<Seq<char>>,
    ind: Seq<char>,
    lv: Seq<char>,
    elem: HType,
    depth: u64,
)
    ensures
        vec_drop_c(sym, owns, ind, lv, elem, depth).len() > 0,
{
    lemma_line_not_empty(ind, "free("@ + lv + ".data);"@);
}

/// Code is written to release a value exactly when its type owns heap memory.
pub proof fn law_drops_what_owns(
    sym: SymTab,
    owns: Set<Seq<char>>,
    ind: Seq<char>,
    lv: Seq<char>,
    t: HType,
    depth: u64,
)
    ensures
        field_drop_c(sym, owns, ind, lv, t, depth) == ""@ <==> !ty_owns(sym, owns, t),
{
    reveal_strlit("");
    let text = field_drop_c(sym, owns, ind, lv, t, depth);
    match t {
        HType::OwnPtr { .. } => {
            lemma_line_not_empty(ind, "}"@);
        },
        HType::Heap { inner } => {
            lemma_line_not_empty(ind, "}"@);
            if let HType::Vec { elem } = *inner {
                lemma_vec_drop_not_empty(sym, owns, ind, lv, *elem, depth);
            }
        },
        HType::Vec { elem } => {
            lemma_vec_drop_not_empty(sym, owns, ind, lv, *elem, depth);
        },
        HType::Struct(id) => {
            lemma_line_not_empty(
                ind,
                "__maka_drop_"@ + text::ident(sym.the_struct(id).name@) + "(&("@ + lv + "));"@,
            );
        },
        HType::Enum(id) => {
            lemma_line_not_empty(
                ind,
                "__maka_drop_"@ + text::ident(sym.the_enum(id).name@) + "(&("@ + lv + "));"@,
            );
        },
        HType::Array { .. } => {
            lemma_line_not_empty(ind, "}"@);
        },
        _ => {},
    }
    assert(ty_owns(sym, owns, t) ==> text.len() > 0);
}

/// A struct or enum called `name` gets drop glue.
pub open spec fn has_glue(sym: SymTab, owns: Set<Seq<char>>, name: Seq<char>) -> bool {
    ||| exists|i: int|
        0 <= i < sym.structs@.len() && (#[trigger] sym.structs@[i]).name@ == name && glued_struct(
            owns,
            sym.structs@[i],
        )
    ||| exists|i: int|
        0 <= i < sym.enums@.len() && (#[trigger] sym.enums@[i]).name@ == name && glued_enum(
            owns,
            sym.enums@[i],
        )
}

/// Every owning name has its drop function, so each call of one finds it declared.
pub proof fn law_owners_have_glue(sym: SymTab, name: Seq<char>)
    requires
        owning_names(sym).contains(name),
    ensures
        has_glue(sym, owning_names(sym), name),
{
    let all = owning_names(sym);
    let kept = Set::new(|n: Seq<char>| all.contains(n) && has_glue(sym, all, n));
    law_owning_names_closed(sym);
    assert(kept.subset_of(all));
    assert forall|i: int|
        0 <= i < sym.structs@.len() && struct_owns(sym, kept, #[trigger] sym.structs@[i]) implies kept.contains(
        sym.structs@[i].name@,
    ) by {
        lemma_fields_own_grows(sym, kept, all, sym.structs@[i].fields@);
        assert(struct_owns(sym, all, sym.structs@[i]));
        assert(glued_struct(all, sym.structs@[i]));
    }
    assert forall|i: int|
        0 <= i < sym.enums@.len() && enum_owns(sym, kept, #[trigger] sym.enums@[i]) implies kept.contains(
        sym.enums@[i].name@,
    ) by {
        lemma_enum_owns_grows(sym, kept, all, sym.enums@[i]);
        assert(enum_owns(sym, all, sym.enums@[i]));
        assert(glued_enum(all, sym.enums@[i]));
    }
    assert(owns_closed(sym, kept));
}

/// A struct or enum is released field by field exactly where one of its fields owns heap
/// memory: an owning name is that of a struct or enum with an owning field.
pub proof fn law_owners_own(sym: SymTab, name: Seq<char>)
    requires
        owning_names(sym).contains(name),
    ensures
        (exists|i: int|
            0 <= i < sym.structs@.len() && (#[trigger] sym.structs@[i]).name@ == name
                && struct_owns(sym, owning_names(sym), sym.structs@[i])) || (exists|i: int|
            0 <= i < sym.enums@.len() && (#[trigger] sym.enums@[i]).name@ == name && enum_owns(
                sym,
                owning_names(sym),
                sym.enums@[i],
            )),
{
    let all = owning_names(sym);
    let kept = Set::new(
        |n: Seq<char>|
            all.contains(n) && ((exists|i: int|
                0 <= i < sym.structs@.len() && (#[trigger] sym.structs@[i]).name@ == n
                    && struct_owns(sym, all, sym.structs@[i])) || (exists|i: int|
                0 <= i < sym.enums@.len() && (#[trigger] sym.enums@[i]).name@ == n && enum_owns(
                    sym,
                    all,
                    sym.enums@[i],
                ))),
    );
    law_owning_names_closed(sym);
    assert(kept.subset_of(all));
    assert forall|i: int|
        0 <= i < sym.structs@.len() && struct_owns(sym, kept, #[trigger] sym.structs@[i]) implies kept.contains(
        sym.structs@[i].name@,
    ) by {
        lemma_fields_own_grows(sym, kept, all, sym.structs@[i].fields@);
        assert(struct_owns(sym, all, sym.structs@[i]));
    }
    assert forall|i: int|
        0 <= i < sym.enums@.len() && enum_owns(sym, kept, #[trigger] sym.enums@[i]) implies kept.contains(
        sym.enums@[i].name@,
    ) by {
        lemma_enum_owns_grows(sym, kept, all, sym.enums@[i]);
        assert(enum_owns(sym, all, sym.enums@[i]));
    }
    assert(owns_closed(sym, kept));
}

proof fn lemma_struct_glue_declared(sym: SymTab, owns: Set<Seq<char>>, n: nat, i: int)
    requires
        0 <= i < n <= sym.structs@.len(),
        glued_struct(owns, sym.structs@[i]),
    ensures
        text::has_part(
            struct_glue_decls(sym, owns, n),
            text::line_c(""@, drop_head(sym.structs@[i].name@) + ";"@),
        ),
    decreases n,
{
    let l = text::line_c(""@, drop_head(sym.structs@[i].name@) + ";"@);
    let before = struct_glue_decls(sym, owns, (n - 1) as nat);
    if i == n - 1 {
        text::lemma_part_last(before, l);
    } else {
        lemma_struct_glue_declared(sym, owns, (n - 1) as nat, i);
        text::lemma_part_kept(
            before,
            text::line_c(""@, drop_head(sym.structs@[n - 1].name@) + ";"@),
            l,
        );
    }
}

proof fn lemma_enum_glue_declared(sym: SymTab, owns: Set<Seq<char>>, n: nat, i: int)
    requires
        0 <= i < n <= sym.enums@.len(),
        glued_enum(owns, sym.enums@[i]),
    ensures
        text::has_part(
            enum_glue_decls(sym, owns, n),
            text::line_c(""@, drop_head(sym.enums@[i].name@) + ";"@),
        ),
    decreases n,
{
    let l = text::line_c(""@, drop_head(sym.enums@[i].name@) + ";"@);
    let before = enum_glue_decls(sym, owns, (n - 1) as nat);
    if i == n - 1 {
        text::lemma_part_last(before, l);
    } else {
        lemma_enum_glue_declared(sym, owns, (n - 1) as nat, i);
        text::lemma_part_kept(before, text::line_c(""@, drop_head(sym.enums@[n - 1].name@) + ";"@), l);
    }
}

/// The drop function of every owning name is declared before the first is defined.
pub proof fn law_glue_declared(sym: SymTab, name: Seq<char>)
    requires
        owning_names(sym).contains(name),
    ensures
        text::has_part(
            struct_glue_decls(sym, owning_names(sym), sym.structs@.len()) + enum_glue_decls(
                sym,
                owning_names(sym),
                sym.enums@.len(),
            ),
            text::line_c(""@, drop_head(name) + ";"@),
        ),
{
    let owns = owning_names(sym);
    let l = text::line_c(""@, drop_head(name) + ";"@);
    let a = struct_glue_decls(sym, owns, sym.structs@.len());
    let b = enum_glue_decls(sym, owns, sym.enums@.len());
    law_owners_have_glue(sym, name);
    if exists|i: int|
        0 <= i < sym.structs@.len() && (#[trigger] sym.structs@[i]).name@ == name && glued_struct(
            owns,
            sym.structs@[i],
        ) {
        let i = choose|i: int|
            0 <= i < sym.structs@.len() && (#[trigger] sym.structs@[i]).name@ == name
                && glued_struct(owns, sym.structs@[i]);
        lemma_struct_glue_declared(sym, owns, sym.structs@.len(), i);
        text::lemma_part_kept(a, b, l);
    } else {
        let i = choose|i: int|
            0 <= i < sym.enums@.len() && (#[trigger] sym.enums@[i]).name@ == name && glued_enum(
                owns,
                sym.enums@[i],
            );
        lemma_enum_glue_declared(sym, owns, sym.enums@.len(), i);
        text::lemma_part_after(a, b, l);
    }
}

} // verus!
