//! Definitions of structs and enums, each after the types that it embeds.
use vstd::prelude::*;

use crate::drops;
use crate::hir::{EnumInfo, FieldInfo, HType, StructInfo, SymTab};
use crate::text::str_eq;

verus! {

/// A struct or an enum with payload, by its place in the symbol table.
#[derive(Debug, Clone, Copy, PartialEq, Eq, Structural)]
pub struct TypeRef {
    pub is_enum: bool,
    pub index: usize,
}

/// The type that the reference leads to is in the symbol table.
pub open spec fn ref_ok(sym: SymTab, r: TypeRef) -> bool {
    if r.is_enum { r.index < sym.enums@.len() } else { r.index < sym.structs@.len() }
}

/// The name of the type that a reference leads to.
pub open spec fn ref_name(sym: SymTab, r: TypeRef) -> Seq<char> {
    if r.is_enum { sym.enums@[r.index as int].name@ } else { sym.structs@[r.index as int].name@ }
}

/// One of the types is called `name`.
pub open spec fn named(sym: SymTab, refs: Seq<TypeRef>, name: Seq<char>) -> bool {
    exists|i: int| 0 <= i < refs.len() && ref_name(sym, #[trigger] refs[i]) == name
}

/// Every reference leads to a type of the symbol table.
pub open spec fn refs_ok(sym: SymTab, refs: Seq<TypeRef>) -> bool {
    forall|i: int| 0 <= i < refs.len() ==> ref_ok(sym, #[trigger] refs[i])
}

fn has_named(sym: &SymTab, refs: &Vec<TypeRef>, name: &str) -> (r: bool)
    requires
        refs_ok(*sym, refs@),
    ensures
        r == named(*sym, refs@, name@),
{
    let total: usize = refs.len();
    let mut i: usize = 0;
    while i < total
        invariant
            i <= total,
            total == refs@.len(),
            refs_ok(*sym, refs@),
            forall|j: int| 0 <= j < i ==> ref_name(*sym, #[trigger] refs@[j]) != name@,
        decreases total - i,
    {
        let t: TypeRef = refs[i];
        assert(ref_ok(*sym, refs@[i as int]));
        let other: &String = if t.is_enum {
            &sym.enums[t.index].name
        } else {
            &sym.structs[t.index].name
        };
        if str_eq(other, name) {
            assert(ref_name(*sym, refs@[i as int]) == name@);
            return true;
        }
        i += 1;
    }
    false
}

/// The first `n` structs that are defined, the first of each name.
pub open spec fn struct_refs(sym: SymTab, n: nat) -> Seq<TypeRef>
    decreases n,
{
    if n == 0 || n > sym.structs@.len() {
        Seq::empty()
    } else {
        let before = struct_refs(sym, (n - 1) as nat);
        let s = sym.structs@[n - 1];
        if s.written() && !named(sym, before, s.name@) {
            before.push(TypeRef { is_enum: false, index: (n - 1) as usize })
        } else {
            before
        }
    }
}

/// The structs that are defined, then the first `n` enums with payload whose names are
/// not taken.
pub open spec fn type_refs(sym: SymTab, n: nat) -> Seq<TypeRef>
    decreases n,
{
    if n == 0 || n > sym.enums@.len() {
        struct_refs(sym, sym.structs@.len())
    } else {
        let before = type_refs(sym, (n - 1) as nat);
        let e = sym.enums@[n - 1];
        if !e.simple() && !named(sym, before, e.name@) {
            before.push(TypeRef { is_enum: true, index: (n - 1) as usize })
        } else {
            before
        }
    }
}

/// Every type that is defined, in the order of the tables.
pub open spec fn all_types(sym: SymTab) -> Seq<TypeRef> {
    type_refs(sym, sym.enums@.len())
}

fn collect_types(sym: &SymTab) -> (r: Vec<TypeRef>)
    ensures
        r@ == all_types(*sym),
        refs_ok(*sym, r@),
{
    let mut refs: Vec<TypeRef> = Vec::new();
    let mut i: usize = 0;
    while i < sym.structs.len()
        invariant
            i <= sym.structs@.len(),
            refs@ == struct_refs(*sym, i as nat),
            refs_ok(*sym, refs@),
        decreases sym.structs@.len() - i,
    {
        let s: &StructInfo = &sym.structs[i];
        if s.is_written() && !has_named(sym, &refs, &s.name) {
            refs.push(TypeRef { is_enum: false, index: i });
        }
        i += 1;
    }
    let mut j: usize = 0;
    while j < sym.enums.len()
        invariant
            j <= sym.enums@.len(),
            refs@ == type_refs(*sym, j as nat),
            refs_ok(*sym, refs@),
        decreases sym.enums@.len() - j,
    {
        let e: &EnumInfo = &sym.enums[j];
        if !e.is_simple() && !has_named(sym, &refs, &e.name) {
            refs.push(TypeRef { is_enum: true, index: j });
        }
        j += 1;
    }
    refs
}

/// The name of the struct or enum with payload that a value of type `t` embeds. Pointers,
/// slices and vectors embed nothing: a forward declaration is enough for them.
pub open spec fn embedded(sym: SymTab, t: HType) -> Option<Seq<char>>
    decreases t,
{
    match t {
        HType::Struct(id) => Some(sym.the_struct(id).name@),
        HType::Enum(id) => if sym.the_enum(id).simple() {
            None
        } else {
            Some(sym.the_enum(id).name@)
        },
        HType::Array { elem, .. } => embedded(sym, *elem),
        _ => None,
    }
}

/// Finds the struct or enum that a value of type `t` embeds.
pub fn value_dep_name<'a>(sym: &'a SymTab, t: &HType) -> (r: Option<&'a String>)
    requires
        drops::embed_ok(*sym, *t),
    ensures
        match r {
            Some(n) => embedded(*sym, *t) == Some(n@),
            None => embedded(*sym, *t) is None,
        },
    decreases t,
{
    match t {
        HType::Struct(id) => Some(&sym.struct_info(*id).name),
        HType::Enum(id) => {
            let e: &EnumInfo = sym.enum_info(*id);
            if e.is_simple() {
                None
            } else {
                Some(&e.name)
            }
        },
        HType::Array { elem, .. } => value_dep_name(sym, elem),
        _ => None,
    }
}

/// What a value of type `t` embeds is among the types `done`, if it is defined at all.
pub open spec fn dep_done(sym: SymTab, all: Seq<TypeRef>, done: Seq<TypeRef>, t: HType) -> bool {
    match embedded(sym, t) {
        Some(n) => named(sym, all, n) ==> named(sym, done, n),
        None => true,
    }
}

/// Every type that the fields embed is among `done` or not defined at all.
pub open spec fn deps_done(
    sym: SymTab,
    all: Seq<TypeRef>,
    done: Seq<TypeRef>,
    fields: Seq<FieldInfo>,
) -> bool {
    forall|i: int| 0 <= i < fields.len() ==> dep_done(sym, all, done, (#[trigger] fields[i]).ty)
}

/// Everything that the type embeds is among the types `done`.
pub open spec fn ready(sym: SymTab, all: Seq<TypeRef>, done: Seq<TypeRef>, r: TypeRef) -> bool {
    if r.is_enum {
        let e = sym.enums@[r.index as int];
        forall|i: int|
            0 <= i < e.variants@.len() ==> deps_done(
                sym,
                all,
                done,
                (#[trigger] e.variants@[i]).fields@,
            )
    } else {
        deps_done(sym, all, done, sym.structs@[r.index as int].fields@)
    }
}

fn fields_ready(
    sym: &SymTab,
    all: &Vec<TypeRef>,
    done: &Vec<TypeRef>,
    fields: &Vec<FieldInfo>,
) -> (r: bool)
    requires
        refs_ok(*sym, all@),
        refs_ok(*sym, done@),
        drops::fields_embed_ok(*sym, fields@),
    ensures
        r == deps_done(*sym, all@, done@, fields@),
{
    let total: usize = fields.len();
    let mut i: usize = 0;
    while i < total
        invariant
            i <= total,
            total == fields@.len(),
            refs_ok(*sym, all@),
            refs_ok(*sym, done@),
            drops::fields_embed_ok(*sym, fields@),
            forall|j: int|
                0 <= j < i ==> dep_done(*sym, all@, done@, (#[trigger] fields@[j]).ty),
        decreases total - i,
    {
        match value_dep_name(sym, &fields[i].ty) {
            Some(n) => {
                if has_named(sym, all, n) && !has_named(sym, done, n) {
                    assert(!dep_done(*sym, all@, done@, fields@[i as int].ty));
                    return false;
                }
            },
            None => {},
        }
        i += 1;
    }
    true
}

/// The fields of the type embed known types only.
pub open spec fn ref_embed_ok(sym: SymTab, r: TypeRef) -> bool {
    if r.is_enum {
        drops::enum_embed_ok(sym, sym.enums@[r.index as int])
    } else {
        drops::fields_embed_ok(sym, sym.structs@[r.index as int].fields@)
    }
}

/// What the types embed can be told.
pub open spec fn refs_embed_ok(sym: SymTab, refs: Seq<TypeRef>) -> bool {
    forall|i: int| 0 <= i < refs.len() ==> ref_embed_ok(sym, #[trigger] refs[i])
}

fn is_ready(sym: &SymTab, all: &Vec<TypeRef>, done: &Vec<TypeRef>, t: TypeRef) -> (r: bool)
    requires
        refs_ok(*sym, all@),
        refs_ok(*sym, done@),
        ref_ok(*sym, t),
        ref_embed_ok(*sym, t),
    ensures
        r == ready(*sym, all@, done@, t),
{
    if !t.is_enum {
        return fields_ready(sym, all, done, &sym.structs[t.index].fields);
    }
    let e: &EnumInfo = &sym.enums[t.index];
    let total: usize = e.variants.len();
    let mut i: usize = 0;
    while i < total
        invariant
            i <= total,
            total == e.variants@.len(),
            refs_ok(*sym, all@),
            refs_ok(*sym, done@),
            drops::enum_embed_ok(*sym, *e),
            t.is_enum,
            *e == sym.enums@[t.index as int],
            forall|j: int|
                0 <= j < i ==> deps_done(
                    *sym,
                    all@,
                    done@,
                    (#[trigger] e.variants@[j]).fields@,
                ),
        decreases total - i,
    {
        if !fields_ready(sym, all, done, &e.variants[i].fields) {
            assert(!deps_done(*sym, all@, done@, e.variants@[i as int].fields@));
            return false;
        }
        i += 1;
    }
    true
}

/// One walk over the first `n` types: each that is ready and not yet done is appended.
pub open spec fn one_pass(sym: SymTab, all: Seq<TypeRef>, done: Seq<TypeRef>, n: nat) -> Seq<TypeRef>
    decreases n,
{
    if n == 0 || n > all.len() {
        done
    } else {
        let before = one_pass(sym, all, done, (n - 1) as nat);
        if !before.contains(all[n - 1]) && ready(sym, all, before, all[n - 1]) {
            before.push(all[n - 1])
        } else {
            before
        }
    }
}

/// Walks until one finds nothing more.
pub open spec fn settled(sym: SymTab, all: Seq<TypeRef>, done: Seq<TypeRef>) -> Seq<TypeRef>
    decreases all.len() - done.len(),
{
    let next = one_pass(sym, all, done, all.len());
    if done.len() < next.len() <= all.len() {
        settled(sym, all, next)
    } else {
        done
    }
}

/// The types `done`, then those of the first `n` that are not among them.
pub open spec fn with_rest(all: Seq<TypeRef>, done: Seq<TypeRef>, n: nat) -> Seq<TypeRef>
    decreases n,
{
    if n == 0 || n > all.len() {
        done
    } else {
        let before = with_rest(all, done, (n - 1) as nat);
        if before.contains(all[n - 1]) { before } else { before.push(all[n - 1]) }
    }
}

/// The types in the order in which they are defined. Types that embed each other in a
/// circle have no such order and come last.
pub open spec fn type_order(sym: SymTab) -> Seq<TypeRef> {
    let all = all_types(sym);
    with_rest(all, settled(sym, all, Seq::empty()), all.len())
}

/// No type occurs twice.
pub open spec fn distinct(refs: Seq<TypeRef>) -> bool {
    forall|i: int, j: int| 0 <= i < j < refs.len() ==> #[trigger] refs[i] != #[trigger] refs[j]
}

/// Every type of `part` is one of `all`.
pub open spec fn among(part: Seq<TypeRef>, all: Seq<TypeRef>) -> bool {
    forall|i: int| 0 <= i < part.len() ==> all.contains(#[trigger] part[i])
}

proof fn lemma_among_len(part: Seq<TypeRef>, all: Seq<TypeRef>)
    requires
        distinct(part),
        among(part, all),
    ensures
        part.len() <= all.len(),
    decreases part.len(),
{
    if part.len() > 0 {
        let x = part.last();
        assert(all.contains(part[part.len() - 1]));
        let k = choose|k: int| 0 <= k < all.len() && all[k] == x;
        let rest = part.drop_last();
        let others = all.remove(k);
        assert forall|i: int| 0 <= i < rest.len() implies others.contains(#[trigger] rest[i]) by {
            assert(rest[i] == part[i]);
            assert(all.contains(part[i]));
            let m = choose|m: int| 0 <= m < all.len() && all[m] == part[i];
            assert(part[i] != part[part.len() - 1]);
            if m < k {
                assert(others[m] == rest[i]);
            } else {
                assert(others[m - 1] == rest[i]);
            }
        }
        assert forall|i: int, j: int| 0 <= i < j < rest.len() implies #[trigger] rest[i]
            != #[trigger] rest[j] by {
            assert(part[i] != part[j]);
        }
        lemma_among_len(rest, others);
    }
}

proof fn lemma_push_distinct(refs: Seq<TypeRef>, all: Seq<TypeRef>, x: TypeRef)
    requires
        distinct(refs),
        among(refs, all),
        !refs.contains(x),
        all.contains(x),
    ensures
        distinct(refs.push(x)),
        among(refs.push(x), all),
{
    let p = refs.push(x);
    assert forall|i: int, j: int| 0 <= i < j < p.len() implies #[trigger] p[i] != #[trigger] p[j] by {
        if j == refs.len() {
            assert(refs.contains(refs[i]));
        } else {
            assert(refs[i] != refs[j]);
        }
    }
    assert forall|i: int| 0 <= i < p.len() implies all.contains(#[trigger] p[i]) by {
        if i < refs.len() {
            assert(all.contains(refs[i]));
        }
    }
}

proof fn lemma_pass(sym: SymTab, all: Seq<TypeRef>, done: Seq<TypeRef>, n: nat)
    requires
        n <= all.len(),
        distinct(done),
        among(done, all),
    ensures
        distinct(one_pass(sym, all, done, n)),
        among(one_pass(sym, all, done, n), all),
        done.is_prefix_of(one_pass(sym, all, done, n)),
    decreases n,
{
    if n > 0 {
        lemma_pass(sym, all, done, (n - 1) as nat);
        let before = one_pass(sym, all, done, (n - 1) as nat);
        if !before.contains(all[n - 1]) {
            lemma_push_distinct(before, all, all[n - 1]);
        }
    }
}

/// Works through the types until none is ready any more.
fn settle(sym: &SymTab, all: &Vec<TypeRef>) -> (r: Vec<TypeRef>)
    requires
        refs_ok(*sym, all@),
        refs_embed_ok(*sym, all@),
    ensures
        r@ == settled(*sym, all@, Seq::empty()),
        refs_ok(*sym, r@),
{
    let mut done: Vec<TypeRef> = Vec::new();
    let total: usize = all.len();
    assert(done@ =~= Seq::<TypeRef>::empty());
    loop
        invariant
            total == all@.len(),
            refs_ok(*sym, all@),
            refs_embed_ok(*sym, all@),
            refs_ok(*sym, done@),
            distinct(done@),
            among(done@, all@),
            settled(*sym, all@, done@) == settled(*sym, all@, Seq::empty()),
        ensures
            refs_ok(*sym, done@),
            done@ == settled(*sym, all@, Seq::empty()),
        decreases all@.len() - done@.len(),
    {
        let ghost start: Seq<TypeRef> = done@;
        proof {
            lemma_among_len(start, all@);
        }
        let before: usize = done.len();
        let mut i: usize = 0;
        while i < total
            invariant
                i <= total,
                total == all@.len(),
                refs_ok(*sym, all@),
                refs_embed_ok(*sym, all@),
                refs_ok(*sym, done@),
                done@ == one_pass(*sym, all@, start, i as nat),
            decreases total - i,
        {
            let t: TypeRef = all[i];
            assert(ref_ok(*sym, all@[i as int]) && ref_embed_ok(*sym, all@[i as int]));
            if !holds(&done, t) && is_ready(sym, all, &done, t) {
                done.push(t);
            }
            i += 1;
        }
        proof {
            lemma_pass(*sym, all@, start, all@.len());
            lemma_among_len(done@, all@);
        }
        if done.len() == before {
            assert(done@ =~= start);
            break;
        }
    }
    done
}

fn holds(refs: &Vec<TypeRef>, t: TypeRef) -> (r: bool)
    ensures
        r == refs@.contains(t),
{
    let total: usize = refs.len();
    let mut i: usize = 0;
    while i < total
        invariant
            i <= total,
            total == refs@.len(),
            forall|j: int| 0 <= j < i ==> refs@[j] != t,
        decreases total - i,
    {
        if refs[i] == t {
            assert(refs@[i as int] == t);
            return true;
        }
        i += 1;
    }
    false
}

/// The types in the order in which they are defined.
pub fn order_types(sym: &SymTab) -> (r: Vec<TypeRef>)
    requires
        refs_embed_ok(*sym, all_types(*sym)),
    ensures
        r@ == type_order(*sym),
        refs_ok(*sym, r@),
{
    let all: Vec<TypeRef> = collect_types(sym);
    let mut order: Vec<TypeRef> = settle(sym, &all);
    let ghost done: Seq<TypeRef> = order@;
    let mut i: usize = 0;
    while i < all.len()
        invariant
            i <= all@.len(),
            refs_ok(*sym, all@),
            refs_ok(*sym, order@),
            order@ == with_rest(all@, done, i as nat),
        decreases all@.len() - i,
    {
        let t: TypeRef = all[i];
        assert(ref_ok(*sym, all@[i as int]));
        if !holds(&order, t) {
            order.push(t);
        }
        i += 1;
    }
    order
}

/// Each type was ready when those before it were done.
pub open spec fn built(sym: SymTab, all: Seq<TypeRef>, done: Seq<TypeRef>) -> bool {
    forall|i: int|
        0 <= i < done.len() ==> ready(sym, all, #[trigger] done.take(i), done[i])
}

proof fn lemma_built_push(sym: SymTab, all: Seq<TypeRef>, done: Seq<TypeRef>, x: TypeRef)
    requires
        built(sym, all, done),
        ready(sym, all, done, x),
    ensures
        built(sym, all, done.push(x)),
{
    let p = done.push(x);
    assert forall|i: int| 0 <= i < p.len() implies ready(sym, all, #[trigger] p.take(i), p[i]) by {
        if i < done.len() {
            assert(p.take(i) =~= done.take(i));
        } else {
            assert(p.take(i) =~= done);
        }
    }
}

proof fn lemma_pass_built(sym: SymTab, all: Seq<TypeRef>, done: Seq<TypeRef>, n: nat)
    requires
        n <= all.len(),
        built(sym, all, done),
    ensures
        built(sym, all, one_pass(sym, all, done, n)),
    decreases n,
{
    if n > 0 {
        lemma_pass_built(sym, all, done, (n - 1) as nat);
        let before = one_pass(sym, all, done, (n - 1) as nat);
        if !before.contains(all[n - 1]) && ready(sym, all, before, all[n - 1]) {
            lemma_built_push(sym, all, before, all[n - 1]);
        }
    }
}

/// No further type is ready: each that is left embeds one that is left.
pub open spec fn stuck(sym: SymTab, all: Seq<TypeRef>, done: Seq<TypeRef>) -> bool {
    forall|k: int|
        0 <= k < all.len() ==> done.contains(#[trigger] all[k]) || !ready(sym, all, done, all[k])
}

proof fn lemma_pass_grows(sym: SymTab, all: Seq<TypeRef>, done: Seq<TypeRef>, n: nat, m: nat)
    requires
        n <= m <= all.len(),
    ensures
        one_pass(sym, all, done, n).len() <= one_pass(sym, all, done, m).len(),
    decreases m,
{
    if n < m {
        lemma_pass_grows(sym, all, done, n, (m - 1) as nat);
    }
}

proof fn lemma_stuck(sym: SymTab, all: Seq<TypeRef>, done: Seq<TypeRef>)
    requires
        distinct(done),
        among(done, all),
        one_pass(sym, all, done, all.len()).len() <= done.len(),
    ensures
        stuck(sym, all, done),
{
    assert forall|k: int| 0 <= k < all.len() implies done.contains(#[trigger] all[k]) || !ready(
        sym,
        all,
        done,
        all[k],
    ) by {
        lemma_pass(sym, all, done, k as nat);
        lemma_pass_grows(sym, all, done, 0, k as nat);
        lemma_pass_grows(sym, all, done, k as nat, (k + 1) as nat);
        lemma_pass_grows(sym, all, done, (k + 1) as nat, all.len());
        assert(one_pass(sym, all, done, 0) == done);
        assert(one_pass(sym, all, done, k as nat) =~= done);
    }
}

proof fn lemma_settled(sym: SymTab, all: Seq<TypeRef>, done: Seq<TypeRef>)
    requires
        distinct(done),
        among(done, all),
        built(sym, all, done),
    ensures
        distinct(settled(sym, all, done)),
        among(settled(sym, all, done), all),
        built(sym, all, settled(sym, all, done)),
        stuck(sym, all, settled(sym, all, done)),
    decreases all.len() - done.len(),
{
    let next = one_pass(sym, all, done, all.len());
    lemma_pass(sym, all, done, all.len());
    lemma_pass_built(sym, all, done, all.len());
    lemma_among_len(next, all);
    if done.len() < next.len() <= all.len() {
        lemma_settled(sym, all, next);
    } else {
        lemma_stuck(sym, all, done);
    }
}

proof fn lemma_rest(all: Seq<TypeRef>, done: Seq<TypeRef>, n: nat)
    requires
        n <= all.len(),
        distinct(done),
        among(done, all),
    ensures
        distinct(with_rest(all, done, n)),
        among(with_rest(all, done, n), all),
        done.is_prefix_of(with_rest(all, done, n)),
        forall|k: int| 0 <= k < n ==> with_rest(all, done, n).contains(#[trigger] all[k]),
    decreases n,
{
    if n > 0 {
        lemma_rest(all, done, (n - 1) as nat);
        let before = with_rest(all, done, (n - 1) as nat);
        let after = with_rest(all, done, n);
        if !before.contains(all[n - 1]) {
            lemma_push_distinct(before, all, all[n - 1]);
            assert(after[before.len() as int] == all[n - 1]);
        }
        assert forall|k: int| 0 <= k < n implies after.contains(#[trigger] all[k]) by {
            if k < n - 1 {
                assert(before.contains(all[k]));
                let i = choose|i: int| 0 <= i < before.len() && before[i] == all[k];
                assert(after[i] == all[k]);
            }
        }
    }
}

/// Every type is defined exactly once.
pub proof fn law_types_defined_once(sym: SymTab)
    ensures
        distinct(type_order(sym)),
        forall|r: TypeRef| type_order(sym).contains(r) == all_types(sym).contains(r),
{
    let all = all_types(sym);
    let done = settled(sym, all, Seq::empty());
    lemma_settled(sym, all, Seq::empty());
    lemma_rest(all, done, all.len());
    let order = type_order(sym);
    assert forall|r: TypeRef| order.contains(r) == all.contains(r) by {
        if order.contains(r) {
            let i = choose|i: int| 0 <= i < order.len() && order[i] == r;
            assert(all.contains(order[i]));
        }
        if all.contains(r) {
            let k = choose|k: int| 0 <= k < all.len() && all[k] == r;
            assert(order.contains(all[k]));
        }
    }
}

/// The types split into a first part, in which each comes after all that it embeds, and a
/// rest, each of which embeds a type that is not in the first part.
pub proof fn law_embedded_types_first(sym: SymTab)
    ensures
        settled(sym, all_types(sym), Seq::empty()).is_prefix_of(type_order(sym)),
        built(sym, all_types(sym), settled(sym, all_types(sym), Seq::empty())),
        stuck(sym, all_types(sym), settled(sym, all_types(sym), Seq::empty())),
{
    let all = all_types(sym);
    lemma_settled(sym, all, Seq::empty());
    lemma_rest(all, settled(sym, all, Seq::empty()), all.len());
}

/// The type embeds the type called `name`.
pub open spec fn embeds(sym: SymTab, r: TypeRef, name: Seq<char>) -> bool {
    if r.is_enum {
        let e = sym.enums@[r.index as int];
        exists|i: int, j: int|
            0 <= i < e.variants@.len() && 0 <= j < e.variants@[i].fields@.len() && embedded(
                sym,
                (#[trigger] e.variants@[i].fields@[j]).ty,
            ) == Some(name)
    } else {
        let s = sym.structs@[r.index as int];
        exists|j: int|
            0 <= j < s.fields@.len() && embedded(sym, (#[trigger] s.fields@[j]).ty) == Some(name)
    }
}

/// No type embeds itself, directly or through others: `rank` falls from each type to
/// those that it embeds.
pub open spec fn falls(sym: SymTab, rank: spec_fn(Seq<char>) -> nat) -> bool {
    forall|k: int, name: Seq<char>|
        0 <= k < all_types(sym).len() && #[trigger] embeds(sym, all_types(sym)[k], name) && named(
            sym,
            all_types(sym),
            name,
        ) ==> rank(name) < rank(ref_name(sym, all_types(sym)[k]))
}

proof fn lemma_all_settled(sym: SymTab, rank: spec_fn(Seq<char>) -> nat, k: int)
    requires
        falls(sym, rank),
        0 <= k < all_types(sym).len(),
    ensures
        settled(sym, all_types(sym), Seq::empty()).contains(all_types(sym)[k]),
    decreases rank(ref_name(sym, all_types(sym)[k])),
{
    let all = all_types(sym);
    let done = settled(sym, all, Seq::empty());
    let r = all[k];
    lemma_settled(sym, all, Seq::empty());
    if !done.contains(r) {
        assert(!ready(sym, all, done, r));
        let fields = if r.is_enum {
            let e = sym.enums@[r.index as int];
            let i = choose|i: int|
                0 <= i < e.variants@.len() && !deps_done(
                    sym,
                    all,
                    done,
                    (#[trigger] e.variants@[i]).fields@,
                );
            let fields = e.variants@[i].fields@;
            let j = choose|j: int|
                0 <= j < fields.len() && !dep_done(sym, all, done, (#[trigger] fields[j]).ty);
            assert(embedded(sym, e.variants@[i].fields@[j].ty) is Some);
            assert(embeds(sym, all[k], embedded(sym, fields[j].ty)->0));
            fields
        } else {
            let fields = sym.structs@[r.index as int].fields@;
            let j = choose|j: int|
                0 <= j < fields.len() && !dep_done(sym, all, done, (#[trigger] fields[j]).ty);
            assert(embeds(sym, all[k], embedded(sym, fields[j].ty)->0));
            fields
        };
        let j = choose|j: int|
            0 <= j < fields.len() && !dep_done(sym, all, done, (#[trigger] fields[j]).ty);
        let name = embedded(sym, fields[j].ty)->0;
        assert(named(sym, all, name) && !named(sym, done, name));
        let m = choose|m: int| 0 <= m < all.len() && ref_name(sym, #[trigger] all[m]) == name;
        lemma_all_settled(sym, rank, m);
        let p = choose|p: int| 0 <= p < done.len() && done[p] == all[m];
        assert(ref_name(sym, done[p]) == name);
    }
}

/// Where no type embeds itself, every type is defined after all that it embeds.
pub proof fn law_definitions_in_order(sym: SymTab, rank: spec_fn(Seq<char>) -> nat)
    requires
        falls(sym, rank),
    ensures
        built(sym, all_types(sym), type_order(sym)),
{
    let all = all_types(sym);
    let done = settled(sym, all, Seq::empty());
    lemma_settled(sym, all, Seq::empty());
    assert forall|k: int| 0 <= k < all.len() implies done.contains(#[trigger] all[k]) by {
        lemma_all_settled(sym, rank, k);
    }
    lemma_nothing_left(all, done, all.len());
}

proof fn lemma_nothing_left(all: Seq<TypeRef>, done: Seq<TypeRef>, n: nat)
    requires
        n <= all.len(),
        forall|k: int| 0 <= k < all.len() ==> done.contains(#[trigger] all[k]),
    ensures
        with_rest(all, done, n) == done,
    decreases n,
{
    if n > 0 {
        lemma_nothing_left(all, done, (n - 1) as nat);
        assert(done.contains(all[n - 1]));
    }
}

} // verus!
