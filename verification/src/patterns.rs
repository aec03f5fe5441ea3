//! Match arms: the tests and the bindings of their patterns.
use vstd::prelude::*;

use crate::ctypes;
use crate::ctypes::{c_type, scoped_name};
use crate::hir::{
    EnumId, EnumInfo, HArmKind, HExpr, HFunc, HMatchArm, HType, LocalId, LocalInfo, SymTab,
    VariantInfo,
};
use crate::operators;
use crate::operators::literal_str;
use crate::text;
use crate::text::{c_ident, cat3, cat4, cat5, cat7, cat8, dec_i64, join, no_parts, own, push_part};

verus! {

/// No field of the pattern has to equal a literal.
pub open spec fn no_checks(checks: Seq<Option<HExpr>>) -> bool {
    forall|i: int| 0 <= i < checks.len() ==> (#[trigger] checks[i]) is None
}

fn has_no_checks(checks: &Vec<Option<HExpr>>) -> (r: bool)
    ensures
        r == no_checks(checks@),
{
    let total: usize = checks.len();
    let mut i: usize = 0;
    while i < total
        invariant
            i <= total,
            total == checks@.len(),
            forall|j: int| 0 <= j < i ==> (#[trigger] checks@[j]) is None,
        decreases total - i,
    {
        if checks[i].is_some() {
            assert(checks@[i as int] is Some);
            return false;
        }
        i += 1;
    }
    true
}

/// The arm is a bare tag of the enum, or the `else` arm.
pub open spec fn switch_arm(a: HMatchArm, id: EnumId) -> bool {
    a.guard is None && match a.kind {
        HArmKind::Variant { enum_id, lit_checks, .. } => enum_id == id && no_checks(lit_checks@),
        HArmKind::Else => true,
        _ => false,
    }
}

/// The enum whose tags the match dispatches on, where nothing but the tag decides: every
/// arm is a bare variant or `else`, and there is at most one `else`.
pub open spec fn switch_enum(ty: HType, arms: Seq<HMatchArm>) -> Option<EnumId> {
    match ty {
        HType::Enum(id) => if (forall|i: int|
            0 <= i < arms.len() ==> switch_arm(#[trigger] arms[i], id)) && (forall|i: int, j: int|
            0 <= i < j < arms.len() ==> !((#[trigger] arms[i]).kind is Else && (
            #[trigger] arms[j]).kind is Else)) {
            Some(id)
        } else {
            None
        },
        _ => None,
    }
}

/// Tests whether a match is a pure tag dispatch.
pub fn match_as_switch(ty: &HType, arms: &Vec<HMatchArm>) -> (r: Option<EnumId>)
    ensures
        r == switch_enum(*ty, arms@),
{
    let id: EnumId = match ty {
        HType::Enum(id) => *id,
        _ => {
            return None;
        },
    };
    let total: usize = arms.len();
    let mut seen_else: bool = false;
    let ghost mut else_at: int = 0;
    let mut i: usize = 0;
    while i < total
        invariant
            i <= total,
            total == arms@.len(),
            *ty == HType::Enum(id),
            forall|j: int| 0 <= j < i ==> switch_arm(#[trigger] arms@[j], id),
            seen_else ==> 0 <= else_at < i && arms@[else_at].kind is Else,
            forall|j: int|
                0 <= j < i && (#[trigger] arms@[j]).kind is Else ==> seen_else && j == else_at,
        decreases total - i,
    {
        let a: &HMatchArm = &arms[i];
        assert(*a == arms@[i as int]);
        if a.guard.is_some() {
            assert(!switch_arm(arms@[i as int], id));
            return None;
        }
        match &a.kind {
            HArmKind::Variant { enum_id, lit_checks, .. } => {
                if enum_id.0 != id.0 || !has_no_checks(lit_checks) {
                    assert(!switch_arm(arms@[i as int], id));
                    return None;
                }
            },
            HArmKind::Else => {
                if seen_else {
                    assert(arms@[else_at].kind is Else && arms@[i as int].kind is Else);
                    return None;
                }
                seen_else = true;
                proof {
                    else_at = i as int;
                }
            },
            _ => {
                assert(!switch_arm(arms@[i as int], id));
                return None;
            },
        }
        i += 1;
    }
    Some(id)
}

/// The pattern names a variant that exists and checks fields that exist.
pub open spec fn test_ok(sym: SymTab, k: HArmKind) -> bool {
    match k {
        HArmKind::Variant { enum_id, variant, lit_checks, .. } => {
            &&& sym.has_variant(enum_id, variant)
            &&& forall|i: int|
                0 <= i < lit_checks@.len() && (#[trigger] lit_checks@[i]) is Some ==> i
                    < sym.the_variant(enum_id, variant).fields@.len()
        },
        _ => true,
    }
}

/// The pattern names a variant that exists and binds fields that exist to locals that do.
pub open spec fn binds_ok(sym: SymTab, f: HFunc, k: HArmKind) -> bool {
    match k {
        HArmKind::Variant { enum_id, variant, bindings, .. } => {
            &&& sym.has_variant(enum_id, variant)
            &&& forall|i: int|
                0 <= i < bindings@.len() && (#[trigger] bindings@[i]) is Some ==> i
                    < sym.the_variant(enum_id, variant).fields@.len() && typed_local_ok(
                    sym,
                    f,
                    bindings@[i]->0,
                )
        },
        _ => true,
    }
}

/// The local exists and C can spell its type.
pub open spec fn typed_local_ok(sym: SymTab, f: HFunc, id: LocalId) -> bool {
    id.0 < f.locals@.len() && ctypes::ty_ok(sym, f.locals@[id.0 as int].ty)
}

/// Where C finds the tag of the scrutinee `__s`.
pub open spec fn tag_place(e: EnumInfo) -> Seq<char> {
    if e.simple() { "__s"@ } else { "__s.tag"@ }
}

/// The place of the tag.
pub fn tag_expr(e: &EnumInfo) -> (r: &'static str)
    ensures
        r@ == tag_place(*e),
{
    if e.is_simple() { "__s" } else { "__s.tag" }
}

/// The tests of a variant pattern: its tag, and the literals among its first `n` fields.
pub open spec fn variant_tests(
    e: EnumInfo,
    v: VariantInfo,
    checks: Seq<Option<HExpr>>,
    n: nat,
) -> Seq<Seq<char>>
    decreases n,
{
    if n == 0 || n > checks.len() {
        seq!["("@ + tag_place(e) + " == "@ + text::decimal(v.tag as int) + ")"@]
    } else {
        let before = variant_tests(e, v, checks, (n - 1) as nat);
        match checks[n - 1] {
            Some(c) => before.push(
                "(__s.payload."@ + text::ident(v.name@) + "."@ + text::ident(v.fields@[n - 1].name@) + " == "@
                    + operators::literal_text(c) + ")"@,
            ),
            None => before,
        }
    }
}

/// The condition under which an arm is taken, guard aside.
pub open spec fn predicate_text(sym: SymTab, k: HArmKind) -> Seq<char> {
    match k {
        HArmKind::Else => "1"@,
        HArmKind::Null => "(__s == NULL)"@,
        HArmKind::Lit(e) => "(__s == "@ + operators::literal_text(e) + ")"@,
        HArmKind::Variant { enum_id, variant, lit_checks, .. } => text::joined(
            variant_tests(
                sym.the_enum(enum_id),
                sym.the_variant(enum_id, variant),
                lit_checks@,
                lit_checks@.len(),
            ),
            " && "@,
        ),
    }
}

/// Writes the condition under which an arm is taken, guard aside.
pub fn match_predicate(sym: &SymTab, k: &HArmKind) -> (r: String)
    requires
        test_ok(*sym, *k),
    ensures
        r@ == predicate_text(*sym, *k),
{
    match k {
        HArmKind::Else => own("1"),
        HArmKind::Null => own("(__s == NULL)"),
        HArmKind::Lit(e) => cat3("(__s == ", &literal_str(e), ")"),
        HArmKind::Variant { enum_id, variant, lit_checks, .. } => {
            let e: &EnumInfo = sym.enum_info(*enum_id);
            let v: &VariantInfo = &e.variants[*variant];
            let first: String = cat5("(", tag_expr(e), " == ", &dec_i64(v.tag), ")");
            let mut parts: Vec<String> = no_parts();
            push_part(&mut parts, first);
            let mut i: usize = 0;
            assert(Seq::<Seq<char>>::empty().push(first@) =~= variant_tests(*e, *v, lit_checks@, 0));
            while i < lit_checks.len()
                invariant
                    i <= lit_checks@.len(),
                    test_ok(*sym, *k),
                    *k matches HArmKind::Variant { enum_id: ke, variant: kv, lit_checks: kc, .. }
                        && ke == *enum_id && kv == *variant && kc == *lit_checks,
                    *e == sym.the_enum(*enum_id),
                    *v == sym.the_variant(*enum_id, *variant),
                    text::views(parts@) == variant_tests(*e, *v, lit_checks@, i as nat),
                decreases lit_checks@.len() - i,
            {
                match &lit_checks[i] {
                    Some(c) => {
                        assert(lit_checks@[i as int] is Some);
                        let p: String = cat7(
                            "(__s.payload.",
                            &c_ident(&v.name),
                            ".",
                            &c_ident(&v.fields[i].name),
                            " == ",
                            &literal_str(c),
                            ")",
                        );
                        push_part(&mut parts, p);
                    },
                    None => {},
                }
                i += 1;
            }
            join(&parts, " && ")
        },
    }
}

/// The declarations of the locals that the first `n` fields of a variant are bound to.
pub open spec fn bound_fields(
    sym: SymTab,
    f: HFunc,
    tag: Option<Seq<char>>,
    v: VariantInfo,
    bindings: Seq<Option<LocalId>>,
    n: nat,
) -> Seq<char>
    decreases n,
{
    if n == 0 || n > bindings.len() {
        ""@
    } else {
        let before = bound_fields(sym, f, tag, v, bindings, (n - 1) as nat);
        match bindings[n - 1] {
            Some(id) => before + bound_field(sym, f, tag, v, id, n - 1),
            None => before,
        }
    }
}

/// The declaration of one bound field.
pub open spec fn bound_field(
    sym: SymTab,
    f: HFunc,
    tag: Option<Seq<char>>,
    v: VariantInfo,
    id: LocalId,
    i: int,
) -> Seq<char> {
    let li = f.locals@[id.0 as int];
    ctypes::ty_c(sym, li.ty) + " "@ + ctypes::scoped_c(f, tag, id) + " = __s.payload."@ + text::ident(v.name@) + "."@
        + text::ident(v.fields@[i].name@) + "; "@
}

/// The declarations of everything that a pattern binds.
pub open spec fn bindings_text(
    sym: SymTab,
    f: HFunc,
    tag: Option<Seq<char>>,
    k: HArmKind,
) -> Seq<char> {
    match k {
        HArmKind::Variant { enum_id, variant, bindings, .. } => bound_fields(
            sym,
            f,
            tag,
            sym.the_variant(enum_id, variant),
            bindings@,
            bindings@.len(),
        ),
        _ => ""@,
    }
}

/// Writes the declarations of everything that a pattern binds.
pub fn match_bindings(
    sym: &SymTab,
    f: &HFunc,
    tag: Option<&str>,
    k: &HArmKind,
) -> (r: String)
    requires
        binds_ok(*sym, *f, *k),
    ensures
        r@ == bindings_text(*sym, *f, ctypes::opt_view(tag), *k),
{
    match k {
        HArmKind::Variant { enum_id, variant, bindings, .. } => {
            let e: &EnumInfo = sym.enum_info(*enum_id);
            let v: &VariantInfo = &e.variants[*variant];
            let mut out: String = own("");
            let mut i: usize = 0;
            while i < bindings.len()
                invariant
                    i <= bindings@.len(),
                    binds_ok(*sym, *f, *k),
                    *k matches HArmKind::Variant { enum_id: ke, variant: kv, bindings: kb, .. }
                        && ke == *enum_id && kv == *variant && kb == *bindings,
                    *v == sym.the_variant(*enum_id, *variant),
                    out@ == bound_fields(*sym, *f, ctypes::opt_view(tag), *v, bindings@, i as nat),
                decreases bindings@.len() - i,
            {
                match &bindings[i] {
                    Some(id) => {
                        assert(bindings@[i as int] is Some);
                        let li: &LocalInfo = &f.locals[id.0 as usize];
                        let p: String = cat8(
                            &c_type(sym, &li.ty),
                            " ",
                            &scoped_name(f, tag, *id),
                            " = __s.payload.",
                            &c_ident(&v.name),
                            ".",
                            &c_ident(&v.fields[i].name),
                            "; ",
                        );
                        out.append(&p);
                    },
                    None => {},
                }
                i += 1;
            }
            out
        },
        _ => own(""),
    }
}

/// The declaration of the local that names the whole scrutinee.
pub open spec fn scrutinee_text(
    sym: SymTab,
    f: HFunc,
    tag: Option<Seq<char>>,
    binding: Option<LocalId>,
) -> Seq<char> {
    match binding {
        Some(id) => {
            let li = f.locals@[id.0 as int];
            ctypes::ty_c(sym, li.ty) + " "@ + ctypes::scoped_c(f, tag, id) + " = __s; "@
        },
        None => ""@,
    }
}

/// The local that names the scrutinee can be declared.
pub open spec fn scrutinee_ok(sym: SymTab, f: HFunc, binding: Option<LocalId>) -> bool {
    match binding {
        Some(id) => typed_local_ok(sym, f, id),
        None => true,
    }
}

/// Writes the declaration of the local that names the scrutinee.
pub fn scrutinee_binding(
    sym: &SymTab,
    f: &HFunc,
    tag: Option<&str>,
    binding: Option<LocalId>,
) -> (r: String)
    requires
        scrutinee_ok(*sym, *f, binding),
    ensures
        r@ == scrutinee_text(*sym, *f, ctypes::opt_view(tag), binding),
{
    match binding {
        Some(id) => {
            let li: &LocalInfo = &f.locals[id.0 as usize];
            cat4(&c_type(sym, &li.ty), " ", &scoped_name(f, tag, id), " = __s; ")
        },
        None => own(""),
    }
}

} // verus!
