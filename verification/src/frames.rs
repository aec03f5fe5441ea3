//! What blocks, loops and inline expansions put around their statements.
use vstd::prelude::*;

use crate::ctypes;
use crate::ctypes::{c_decl, c_type, inline_local_name, local_name};
use crate::drops;
use crate::drops::{drop_ty_owns, emit_field_drop};
use crate::hir::{HBlock, HExpr, HFunc, HType, LocalId, LocalInfo, SymTab};
use crate::sorted::SortedMap;
use crate::text;
use crate::text::{cat2, cat3, cat4, cat6, dec_i64, line, own};

verus! {

/// Every id is a local of the function.
pub open spec fn locals_ok(f: HFunc, ids: Seq<LocalId>) -> bool {
    forall|i: int| 0 <= i < ids.len() ==> (#[trigger] ids[i]).0 < f.locals@.len()
}

/// Every id is a local of the function that can be released.
pub open spec fn releases_ok(sym: SymTab, f: HFunc, ids: Seq<LocalId>) -> bool {
    forall|i: int|
        0 <= i < ids.len() ==> (#[trigger] ids[i]).0 < f.locals@.len() && drops::drop_ok(
            sym,
            f.locals@[ids[i].0 as int].ty,
        )
}

/// Clears the first `n` pointers, whose targets die with the block.
pub open spec fn collapse_text(f: HFunc, ind: Seq<char>, ids: Seq<LocalId>, n: nat) -> Seq<char>
    decreases n,
{
    if n == 0 || n > ids.len() {
        ""@
    } else {
        let name = f.locals@[ids[n - 1].0 as int].name@;
        collapse_text(f, ind, ids, (n - 1) as nat) + text::line_c(
            ind,
            ctypes::local_c(ids[n - 1], name) + " = NULL; /* collapse "@ + name + " */"@,
        )
    }
}

/// Writes what clears the pointers.
pub fn collapse(f: &HFunc, ind: &str, ids: &Vec<LocalId>) -> (r: String)
    requires
        locals_ok(*f, ids@),
    ensures
        r@ == collapse_text(*f, ind@, ids@, ids@.len()),
{
    let mut out: String = own("");
    let mut i: usize = 0;
    while i < ids.len()
        invariant
            i <= ids@.len(),
            locals_ok(*f, ids@),
            out@ == collapse_text(*f, ind@, ids@, i as nat),
        decreases ids@.len() - i,
    {
        let id: LocalId = ids[i];
        let name: &String = &f.locals[id.0 as usize].name;
        let text: String = cat4(&local_name(id, name), " = NULL; /* collapse ", name, " */");
        out.append(&line(ind, &text));
        i += 1;
    }
    out
}

/// Releases the first `n` owning locals at the end of their block.
pub open spec fn release_text(
    sym: SymTab,
    owns: Set<Seq<char>>,
    f: HFunc,
    ind: Seq<char>,
    ids: Seq<LocalId>,
    n: nat,
) -> Seq<char>
    decreases n,
{
    if n == 0 || n > ids.len() {
        ""@
    } else {
        let li = f.locals@[ids[n - 1].0 as int];
        release_text(sym, owns, f, ind, ids, (n - 1) as nat) + text::line_c(
            ind,
            "/* drop heap "@ + li.name@ + " */"@,
        ) + drops::field_drop_c(sym, owns, ind, ctypes::local_c(ids[n - 1], li.name@), li.ty, 0)
    }
}

/// Writes what releases the locals of a block.
pub fn release(
    sym: &SymTab,
    owns: &SortedMap<String, ()>,
    f: &HFunc,
    ind: &str,
    ids: &Vec<LocalId>,
) -> (r: String)
    requires
        owns.wf(),
        releases_ok(*sym, *f, ids@),
    ensures
        r@ == release_text(*sym, owns.dom(), *f, ind@, ids@, ids@.len()),
{
    let mut out: String = own("");
    let mut i: usize = 0;
    while i < ids.len()
        invariant
            i <= ids@.len(),
            owns.wf(),
            releases_ok(*sym, *f, ids@),
            out@ == release_text(*sym, owns.dom(), *f, ind@, ids@, i as nat),
        decreases ids@.len() - i,
    {
        let id: LocalId = ids[i];
        let li: &LocalInfo = &f.locals[id.0 as usize];
        out.append(&line(ind, &cat3("/* drop heap ", &li.name, " */")));
        out.append(&emit_field_drop(sym, owns, ind, &local_name(id, &li.name), &li.ty, 0));
        i += 1;
    }
    out
}

/// Releases the first `n` owning locals before a return.
pub open spec fn return_drops_text(
    sym: SymTab,
    owns: Set<Seq<char>>,
    f: HFunc,
    ind: Seq<char>,
    ids: Seq<LocalId>,
    n: nat,
) -> Seq<char>
    decreases n,
{
    if n == 0 || n > ids.len() {
        ""@
    } else {
        let li = f.locals@[ids[n - 1].0 as int];
        return_drops_text(sym, owns, f, ind, ids, (n - 1) as nat) + text::line_c(
            ind,
            "/* drop on return */"@,
        ) + drops::field_drop_c(sym, owns, ind, ctypes::local_c(ids[n - 1], li.name@), li.ty, 0)
    }
}

/// Writes what releases locals before a return.
pub fn return_drops(
    sym: &SymTab,
    owns: &SortedMap<String, ()>,
    f: &HFunc,
    ind: &str,
    ids: &Vec<LocalId>,
) -> (r: String)
    requires
        owns.wf(),
        releases_ok(*sym, *f, ids@),
    ensures
        r@ == return_drops_text(*sym, owns.dom(), *f, ind@, ids@, ids@.len()),
{
    let mut out: String = own("");
    let mut i: usize = 0;
    while i < ids.len()
        invariant
            i <= ids@.len(),
            owns.wf(),
            releases_ok(*sym, *f, ids@),
            out@ == return_drops_text(*sym, owns.dom(), *f, ind@, ids@, i as nat),
        decreases ids@.len() - i,
    {
        let id: LocalId = ids[i];
        let li: &LocalInfo = &f.locals[id.0 as usize];
        out.append(&line(ind, "/* drop on return */"));
        out.append(&emit_field_drop(sym, owns, ind, &local_name(id, &li.name), &li.ty, 0));
        i += 1;
    }
    out
}

/// The source of a for-each loop is kept in a temporary.
pub open spec fn staged_source(ty: HType) -> bool {
    match ty {
        HType::Slice { .. } | HType::Vec { .. } => true,
        HType::Heap { inner } => *inner is Vec,
        _ => false,
    }
}

fn is_staged(ty: &HType) -> (r: bool)
    ensures
        r == staged_source(*ty),
{
    match ty {
        HType::Slice { .. } | HType::Vec { .. } => true,
        HType::Heap { inner } => match &**inner {
            HType::Vec { .. } => true,
            _ => false,
        },
        _ => false,
    }
}

/// The declaration of the temporary, where there is one.
pub open spec fn source_decl_text(sym: SymTab, ind: Seq<char>, ty: HType, src: Seq<char>) -> Seq<
    char,
> {
    if staged_source(ty) {
        text::line_c(ind, ctypes::ty_c(sym, ty) + " __src = "@ + src + ";"@)
    } else {
        ""@
    }
}

/// Writes the declaration of the temporary.
pub fn source_decl(sym: &SymTab, ind: &str, ty: &HType, src: &str) -> (r: String)
    requires
        staged_source(*ty) ==> ctypes::ty_ok(*sym, *ty),
    ensures
        r@ == source_decl_text(*sym, ind@, *ty, src@),
{
    if is_staged(ty) {
        line(ind, &cat4(&c_type(sym, ty), " __src = ", src, ";"))
    } else {
        own("")
    }
}

/// How many times a for-each loop runs.
pub open spec fn source_len_text(ty: HType) -> Seq<char> {
    match ty {
        HType::Array { len, .. } => "(maka_int)"@ + text::decimal(len as int),
        _ => if staged_source(ty) { "__src.len"@ } else { "0"@ },
    }
}

/// Writes how many times a for-each loop runs.
pub fn source_len(ty: &HType) -> (r: String)
    ensures
        r@ == source_len_text(*ty),
{
    match ty {
        HType::Array { len, .. } => cat2("(maka_int)", &dec_i64(*len)),
        _ => if is_staged(ty) { own("__src.len") } else { own("0") },
    }
}

/// The base of the elements that a for-each loop visits.
pub open spec fn source_elems_text(ty: HType, src: Seq<char>) -> Seq<char> {
    match ty {
        HType::Slice { .. } => "__src.ptr"@,
        _ => if staged_source(ty) { "__src.data"@ } else { src },
    }
}

/// Writes the base of the elements.
pub fn source_elems(ty: &HType, src: &str) -> (r: String)
    ensures
        r@ == source_elems_text(*ty, src@),
{
    match ty {
        HType::Slice { .. } => own("__src.ptr"),
        _ => if is_staged(ty) { own("__src.data") } else { own(src) },
    }
}

/// The declarations of the first `n` parameters of an inline function, each with its
/// argument.
pub open spec fn spliced_params(
    sym: SymTab,
    g: HFunc,
    tag: Seq<char>,
    args: Seq<Seq<char>>,
    n: nat,
) -> Seq<char>
    decreases n,
{
    if n == 0 || n > g.params@.len() {
        ""@
    } else {
        let id = g.params@[n - 1];
        spliced_params(sym, g, tag, args, (n - 1) as nat) + (ctypes::ty_c(sym, g.locals@[id.0 as int].ty)
            + " "@ + ctypes::inline_local_c(id, tag) + " = "@ + (if n - 1 < args.len() {
            args[n - 1]
        } else {
            "0"@
        }) + "; "@)
    }
}

/// Writes the declarations of the parameters.
pub fn splice_params(sym: &SymTab, g: &HFunc, tag: &str, args: &Vec<String>) -> (r: String)
    requires
        ctypes::params_ok(*sym, *g),
    ensures
        r@ == spliced_params(*sym, *g, tag@, text::views(args@), g.params@.len()),
{
    let ghost texts: Seq<Seq<char>> = text::views(args@);
    let mut out: String = own("");
    let mut i: usize = 0;
    while i < g.params.len()
        invariant
            i <= g.params@.len(),
            ctypes::params_ok(*sym, *g),
            texts == text::views(args@),
            out@ == spliced_params(*sym, *g, tag@, texts, i as nat),
        decreases g.params@.len() - i,
    {
        let id: LocalId = g.params[i];
        let arg: &str = if i < args.len() { &args[i] } else { "0" };
        let p: String = cat6(
            &c_type(sym, &g.locals[id.0 as usize].ty),
            " ",
            &inline_local_name(id, tag),
            " = ",
            arg,
            "; ",
        );
        out.append(&p);
        i += 1;
    }
    out
}

/// The local is a parameter.
pub open spec fn is_param(g: HFunc, id: LocalId) -> bool {
    g.params@.contains(id)
}

fn has_param(g: &HFunc, id: LocalId) -> (r: bool)
    ensures
        r == is_param(*g, id),
{
    let total: usize = g.params.len();
    let mut i: usize = 0;
    while i < total
        invariant
            i <= total,
            total == g.params@.len(),
            forall|j: int| 0 <= j < i ==> g.params@[j] != id,
        decreases total - i,
    {
        if g.params[i].0 == id.0 {
            assert(g.params@[i as int] == id);
            return true;
        }
        i += 1;
    }
    false
}

/// The types of the locals that an expansion declares can be spelled.
pub open spec fn spliced_locals_ok(sym: SymTab, g: HFunc) -> bool {
    forall|i: int|
        0 <= i < g.locals@.len() ==> is_param(g, LocalId(i as u32)) || ctypes::ty_ok(
            sym,
            (#[trigger] g.locals@[i]).ty,
        )
}

/// The declarations of those of the first `n` locals that are no parameters, all zero.
pub open spec fn spliced_locals(sym: SymTab, g: HFunc, tag: Seq<char>, n: nat) -> Seq<char>
    decreases n,
{
    if n == 0 || n > g.locals@.len() {
        ""@
    } else {
        let id = LocalId((n - 1) as u32);
        let before = spliced_locals(sym, g, tag, (n - 1) as nat);
        if is_param(g, id) {
            before
        } else {
            before + (ctypes::decl_c(sym, g.locals@[n - 1].ty, ctypes::inline_local_c(id, tag)) + " = {0}; "@)
        }
    }
}

/// Writes the declarations of the other locals.
pub fn splice_locals(sym: &SymTab, g: &HFunc, tag: &str) -> (r: String)
    requires
        spliced_locals_ok(*sym, *g),
    ensures
        r@ == spliced_locals(*sym, *g, tag@, g.locals@.len()),
{
    let mut out: String = own("");
    let mut i: usize = 0;
    while i < g.locals.len()
        invariant
            i <= g.locals@.len(),
            spliced_locals_ok(*sym, *g),
            out@ == spliced_locals(*sym, *g, tag@, i as nat),
        decreases g.locals@.len() - i,
    {
        let id: LocalId = LocalId(i as u32);
        let li: &LocalInfo = &g.locals[i];
        if !has_param(g, id) {
            assert(*li == g.locals@[i as int]);
            let d: String = c_decl(sym, &li.ty, &inline_local_name(id, tag));
            out.append(&cat2(&d, " = {0}; "));
        }
        i += 1;
    }
    out
}

/// The text that releases one local of an expansion: a bare `free` where the local owns a
/// single piece of memory.
pub open spec fn spliced_drop(
    sym: SymTab,
    owns: Set<Seq<char>>,
    ind: Seq<char>,
    g: HFunc,
    tag: Seq<char>,
    id: LocalId,
) -> Seq<char> {
    let ty = g.locals@[id.0 as int].ty;
    let name = ctypes::inline_local_c(id, tag);
    match ty {
        HType::OwnPtr { inner, .. } if !drops::ty_owns(sym, owns, *inner) => "free("@ + name + "); "@,
        HType::Heap { inner } if bare_vec(sym, owns, *inner) => "free("@ + name + ".data); "@,
        HType::Heap { inner } if !drops::ty_owns(sym, owns, *inner) => "free("@ + name + "); "@,
        _ => drops::field_drop_c(sym, owns, ind, name, ty, 0),
    }
}

/// A vector whose elements own nothing.
pub open spec fn bare_vec(sym: SymTab, owns: Set<Seq<char>>, t: HType) -> bool {
    match t {
        HType::Vec { elem } => !drops::ty_owns(sym, owns, *elem),
        _ => false,
    }
}

fn is_bare_vec(sym: &SymTab, owns: &SortedMap<String, ()>, t: &HType) -> (r: bool)
    requires
        owns.wf(),
        drops::drop_ok(*sym, *t),
    ensures
        r == bare_vec(*sym, owns.dom(), *t),
{
    match t {
        HType::Vec { elem } => {
            proof {
                drops::lemma_drop_embed(*sym, **elem);
            }
            !drop_ty_owns(sym, owns, elem)
        },
        _ => false,
    }
}

fn splice_drop(
    sym: &SymTab,
    owns: &SortedMap<String, ()>,
    ind: &str,
    g: &HFunc,
    tag: &str,
    id: LocalId,
) -> (r: String)
    requires
        owns.wf(),
        id.0 < g.locals@.len(),
        drops::drop_ok(*sym, g.locals@[id.0 as int].ty),
    ensures
        r@ == spliced_drop(*sym, owns.dom(), ind@, *g, tag@, id),
{
    let ty: &HType = &g.locals[id.0 as usize].ty;
    let name: String = inline_local_name(id, tag);
    match ty {
        HType::OwnPtr { inner, .. } => {
            proof {
                drops::lemma_drop_embed(*sym, **inner);
            }
            if !drop_ty_owns(sym, owns, inner) {
                return cat3("free(", &name, "); ");
            }
        },
        HType::Heap { inner } => {
            proof {
                drops::lemma_drop_embed(*sym, **inner);
            }
            if is_bare_vec(sym, owns, inner) {
                return cat3("free(", &name, ".data); ");
            }
            if !drop_ty_owns(sym, owns, inner) {
                return cat3("free(", &name, "); ");
            }
        },
        _ => {},
    }
    emit_field_drop(sym, owns, ind, &name, ty, 0)
}

/// Releases those of the first `n` owning locals of an expansion that are not among `kept`.
pub open spec fn spliced_drops(
    sym: SymTab,
    owns: Set<Seq<char>>,
    ind: Seq<char>,
    g: HFunc,
    tag: Seq<char>,
    ids: Seq<LocalId>,
    kept: Seq<LocalId>,
    n: nat,
) -> Seq<char>
    decreases n,
{
    if n == 0 || n > ids.len() {
        ""@
    } else {
        spliced_drops(
            sym,
            owns,
            ind,
            g,
            tag,
            ids,
            kept,
            (n - 1) as nat,
        ) + (if kept.contains(ids[n - 1]) {
            ""@
        } else {
            spliced_drop(sym, owns, ind, g, tag, ids[n - 1])
        })
    }
}

fn holds_id(ids: &Vec<LocalId>, id: LocalId) -> (r: bool)
    ensures
        r == ids@.contains(id),
{
    let total: usize = ids.len();
    let mut i: usize = 0;
    while i < total
        invariant
            i <= total,
            total == ids@.len(),
            forall|j: int| 0 <= j < i ==> ids@[j] != id,
        decreases total - i,
    {
        if ids[i].0 == id.0 {
            assert(ids@[i as int] == id);
            return true;
        }
        i += 1;
    }
    false
}

/// Writes what releases owning locals of an expansion, but for those among `kept`.
pub fn splice_drops(
    sym: &SymTab,
    owns: &SortedMap<String, ()>,
    ind: &str,
    g: &HFunc,
    tag: &str,
    ids: &Vec<LocalId>,
    kept: &Vec<LocalId>,
) -> (r: String)
    requires
        owns.wf(),
        releases_ok(*sym, *g, ids@),
    ensures
        r@ == spliced_drops(*sym, owns.dom(), ind@, *g, tag@, ids@, kept@, ids@.len()),
{
    let mut out: String = own("");
    let mut i: usize = 0;
    while i < ids.len()
        invariant
            i <= ids@.len(),
            owns.wf(),
            releases_ok(*sym, *g, ids@),
            out@ == spliced_drops(*sym, owns.dom(), ind@, *g, tag@, ids@, kept@, i as nat),
        decreases ids@.len() - i,
    {
        let id: LocalId = ids[i];
        if holds_id(kept, id) {
            out.append("");
        } else {
            out.append(&splice_drop(sym, owns, ind, g, tag, id));
        }
        i += 1;
    }
    out
}

/// Clears the first `n` pointers, whose targets die with a block of an expansion.
pub open spec fn spliced_clears(tag: Seq<char>, ids: Seq<LocalId>, n: nat) -> Seq<char>
    decreases n,
{
    if n == 0 || n > ids.len() {
        ""@
    } else {
        spliced_clears(tag, ids, (n - 1) as nat) + (ctypes::inline_local_c(ids[n - 1], tag) + " = NULL; "@)
    }
}

fn splice_clears(tag: &str, ids: &Vec<LocalId>) -> (r: String)
    ensures
        r@ == spliced_clears(tag@, ids@, ids@.len()),
{
    let mut out: String = own("");
    let mut i: usize = 0;
    while i < ids.len()
        invariant
            i <= ids@.len(),
            out@ == spliced_clears(tag@, ids@, i as nat),
        decreases ids@.len() - i,
    {
        out.append(&cat2(&inline_local_name(ids[i], tag), " = NULL; "));
        i += 1;
    }
    out
}

/// What stands at the end of a block within an expansion: what it clears and releases.
pub open spec fn spliced_end(
    sym: SymTab,
    owns: Set<Seq<char>>,
    ind: Seq<char>,
    g: HFunc,
    tag: Seq<char>,
    b: HBlock,
) -> Seq<char> {
    spliced_clears(tag, b.ptr_nulls@, b.ptr_nulls@.len()) + spliced_drops(
        sym,
        owns,
        ind,
        g,
        tag,
        b.heap_to_free@,
        Seq::empty(),
        b.heap_to_free@.len(),
    )
}

/// Writes the end of a block within an expansion.
pub fn splice_end(
    sym: &SymTab,
    owns: &SortedMap<String, ()>,
    ind: &str,
    g: &HFunc,
    tag: &str,
    b: &HBlock,
) -> (r: String)
    requires
        owns.wf(),
        releases_ok(*sym, *g, b.heap_to_free@),
    ensures
        r@ == spliced_end(*sym, owns.dom(), ind@, *g, tag@, *b),
{
    let none: Vec<LocalId> = Vec::new();
    assert(none@ =~= Seq::empty());
    cat2(
        &splice_clears(tag, &b.ptr_nulls),
        &splice_drops(sym, owns, ind, g, tag, &b.heap_to_free, &none),
    )
}

/// The position of the first value that is given for field `i`, from `from` on.
pub open spec fn value_from(fields: Seq<(usize, HExpr)>, i: int, from: nat) -> Option<int>
    decreases fields.len() - from,
{
    if from >= fields.len() {
        None
    } else if fields[from as int].0 == i {
        Some(from as int)
    } else {
        value_from(fields, i, from + 1)
    }
}

/// Finds the value that a literal gives for field `i`.
pub fn find_value(fields: &Vec<(usize, HExpr)>, i: usize) -> (r: Option<usize>)
    ensures
        match r {
            Some(p) => p < fields@.len() && value_from(fields@, i as int, 0) == Some(p as int),
            None => value_from(fields@, i as int, 0) is None,
        },
{
    let mut p: usize = 0;
    while p < fields.len()
        invariant
            p <= fields@.len(),
            value_from(fields@, i as int, 0) == value_from(fields@, i as int, p as nat),
        decreases fields@.len() - p,
    {
        if fields[p].0 == i {
            return Some(p);
        }
        p += 1;
    }
    None
}

/// A found value is one of the literal's.
pub proof fn lemma_value_in_range(fields: Seq<(usize, HExpr)>, i: int, from: nat)
    ensures
        match value_from(fields, i, from) {
            Some(p) => 0 <= p < fields.len(),
            None => true,
        },
    decreases fields.len() - from,
{
    if from < fields.len() && fields[from as int].0 != i {
        lemma_value_in_range(fields, i, from + 1);
    }
}

} // verus!
