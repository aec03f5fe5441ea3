//! C spellings of operators, literals, casts and value conversions.
use vstd::prelude::*;

use crate::ctypes;
use crate::ctypes::c_type;
use crate::hir::{CastKind, EnumInfo, HAssignOp, HBinOp, HExpr, HExprKind, HType, HUnOp, SymTab};
use crate::text;
use crate::text::{
    c_escape, c_ident, cat2, cat3, cat5, cat7, cat9, dec_i64, dec_u64, join, no_parts, own,
    push_part,
};

verus! {

/// The C spelling of a binary operator.
pub open spec fn binop_text(op: HBinOp) -> Seq<char> {
    match op {
        HBinOp::Add => "+"@,
        HBinOp::Sub => "-"@,
        HBinOp::Mul => "*"@,
        HBinOp::Div => "/"@,
        HBinOp::Mod => "%"@,
        HBinOp::Eq => "=="@,
        HBinOp::Ne => "!="@,
        HBinOp::Lt => "<"@,
        HBinOp::Le => "<="@,
        HBinOp::Gt => ">"@,
        HBinOp::Ge => ">="@,
        HBinOp::And => "&&"@,
        HBinOp::Or => "||"@,
        HBinOp::BitAnd => "&"@,
        HBinOp::BitOr => "|"@,
        HBinOp::BitXor => "^"@,
        HBinOp::Shl => "<<"@,
        HBinOp::Shr => ">>"@,
    }
}

/// The C form of a binary operator.
pub fn binop_c(op: HBinOp) -> (r: &'static str)
    ensures
        r@ == binop_text(op),
{
    match op {
        HBinOp::Add => "+",
        HBinOp::Sub => "-",
        HBinOp::Mul => "*",
        HBinOp::Div => "/",
        HBinOp::Mod => "%",
        HBinOp::Eq => "==",
        HBinOp::Ne => "!=",
        HBinOp::Lt => "<",
        HBinOp::Le => "<=",
        HBinOp::Gt => ">",
        HBinOp::Ge => ">=",
        HBinOp::And => "&&",
        HBinOp::Or => "||",
        HBinOp::BitAnd => "&",
        HBinOp::BitOr => "|",
        HBinOp::BitXor => "^",
        HBinOp::Shl => "<<",
        HBinOp::Shr => ">>",
    }
}

/// The C spelling of an assignment operator.
pub open spec fn assign_text(op: HAssignOp) -> Seq<char> {
    match op {
        HAssignOp::Assign => "="@,
        HAssignOp::Add => "+="@,
        HAssignOp::Sub => "-="@,
        HAssignOp::Mul => "*="@,
        HAssignOp::Div => "/="@,
        HAssignOp::Mod => "%="@,
    }
}

/// The C form of an assignment operator.
pub fn assign_op_c(op: HAssignOp) -> (r: &'static str)
    ensures
        r@ == assign_text(op),
{
    match op {
        HAssignOp::Assign => "=",
        HAssignOp::Add => "+=",
        HAssignOp::Sub => "-=",
        HAssignOp::Mul => "*=",
        HAssignOp::Div => "/=",
        HAssignOp::Mod => "%=",
    }
}

/// A value as an argument of `printf`: booleans as words, characters, integers
/// and floats widened to what the conversion expects.
pub open spec fn printf_text(s: Seq<char>, ty: HType) -> Seq<char> {
    match ty {
        HType::Bool => "(("@ + s + ") ? \"true\" : \"false\")"@,
        HType::Char => "(int)("@ + s + ")"@,
        HType::Int | HType::SizedInt { .. } => "(long long)("@ + s + ")"@,
        HType::Float | HType::SizedFloat { .. } => "(double)("@ + s + ")"@,
        _ => s,
    }
}

/// Writes an argument of `printf` as the type its conversion expects.
pub fn printf_conv(s: &str, ty: &HType) -> (r: String)
    ensures
        r@ == printf_text(s@, *ty),
{
    match ty {
        HType::Bool => cat3("((", s, ") ? \"true\" : \"false\")"),
        HType::Char => cat3("(int)(", s, ")"),
        HType::Int | HType::SizedInt { .. } => cat3("(long long)(", s, ")"),
        HType::Float | HType::SizedFloat { .. } => cat3("(double)(", s, ")"),
        _ => own(s),
    }
}

/// The runtime function that logs a value of type `t`.
pub open spec fn log_name(t: HType) -> Seq<char> {
    match t {
        HType::Int | HType::Enum(_) | HType::SizedInt { .. } => "maka_log_int"@,
        HType::Float | HType::SizedFloat { .. } => "maka_log_float"@,
        HType::Bool => "maka_log_bool"@,
        HType::Char => "maka_log_char"@,
        HType::Str => "maka_log_str"@,
        _ => "maka_log_ptr"@,
    }
}

/// The function that logs a value of the type.
pub fn log_helper(t: &HType) -> (r: &'static str)
    ensures
        r@ == log_name(*t),
{
    match t {
        HType::Int | HType::Enum(_) | HType::SizedInt { .. } => "maka_log_int",
        HType::Float | HType::SizedFloat { .. } => "maka_log_float",
        HType::Bool => "maka_log_bool",
        HType::Char => "maka_log_char",
        HType::Str => "maka_log_str",
        _ => "maka_log_ptr",
    }
}

/// An integer literal.
pub open spec fn int_text(n: i64) -> Seq<char> {
    "(maka_int)"@ + text::decimal(n as int) + "LL"@
}

/// Writes an integer literal.
pub fn int_literal(n: i64) -> (r: String)
    ensures
        r@ == int_text(n),
{
    cat3("(maka_int)", &dec_i64(n), "LL")
}

/// A float literal.
pub open spec fn float_text(v: Seq<char>) -> Seq<char> {
    "(maka_float)"@ + v
}

/// Writes a float literal.
pub fn float_literal(v: &str) -> (r: String)
    ensures
        r@ == float_text(v@),
{
    cat2("(maka_float)", v)
}

/// A truth value.
pub open spec fn bool_text(b: bool) -> Seq<char> {
    if b { "true"@ } else { "false"@ }
}

/// The C form of a truth value.
pub fn bool_literal(b: bool) -> (r: String)
    ensures
        r@ == bool_text(b),
{
    if b { own("true") } else { own("false") }
}

/// A character literal, as its code point.
pub open spec fn char_text(c: char) -> Seq<char> {
    "(maka_char)"@ + text::decimal(c as int) + "u"@
}

/// Writes a character literal.
pub fn char_literal(c: char) -> (r: String)
    ensures
        r@ == char_text(c),
{
    cat3("(maka_char)", &dec_u64(c as u64), "u")
}

/// A string literal, escaped for C.
pub open spec fn str_text(s: Seq<char>) -> Seq<char> {
    "\""@ + text::escaped(s) + "\""@
}

/// Writes a string literal.
pub fn str_literal(s: &str) -> (r: String)
    ensures
        r@ == str_text(s@),
{
    cat3("\"", &c_escape(s), "\"")
}

/// A literal that a match arm compares with; anything else compares with zero.
pub open spec fn literal_text(e: HExpr) -> Seq<char> {
    match e.kind {
        HExprKind::LitInt(n) => int_text(n),
        HExprKind::LitBool(b) => bool_text(b),
        HExprKind::LitChar(c) => char_text(c),
        HExprKind::LitFloat(v) => float_text(v@),
        HExprKind::LitNull => "NULL"@,
        _ => "0"@,
    }
}

/// Writes the literal that a pattern is compared with.
pub fn literal_str(e: &HExpr) -> (r: String)
    ensures
        r@ == literal_text(*e),
{
    match &e.kind {
        HExprKind::LitInt(n) => int_literal(*n),
        HExprKind::LitBool(b) => bool_literal(*b),
        HExprKind::LitChar(c) => char_literal(*c),
        HExprKind::LitFloat(v) => float_literal(v),
        HExprKind::LitNull => own("NULL"),
        _ => own("0"),
    }
}

/// Stands for an initializer that is no constant expression.
pub const NOT_CONSTANT: &'static str = "maka_not_a_constant_expression";

/// The initializer of a global: literals, negation and arithmetic over them. Anything else
/// is a name that nothing declares, so that a C compiler refuses it.
pub open spec fn global_init_text(e: HExpr) -> Seq<char>
    decreases e,
{
    match e.kind {
        HExprKind::LitInt(n) => int_text(n),
        HExprKind::LitBool(b) => bool_text(b),
        HExprKind::LitChar(c) => char_text(c),
        HExprKind::LitFloat(v) => float_text(v@),
        HExprKind::LitStr(s) => str_text(s@),
        HExprKind::LitNull => "NULL"@,
        HExprKind::LitUnit => "MAKA_UNIT"@,
        HExprKind::Un { op, expr } => match op {
            HUnOp::Neg => "(-("@ + global_init_text(*expr) + "))"@,
            HUnOp::Not => NOT_CONSTANT@,
        },
        HExprKind::Bin { op, lhs, rhs } => "(("@ + global_init_text(*lhs) + ") "@ + binop_text(op)
            + " ("@ + global_init_text(*rhs) + "))"@,
        _ => NOT_CONSTANT@,
    }
}

/// Writes the initial value of a global.
pub fn emit_global_init(e: &HExpr) -> (r: String)
    ensures
        r@ == global_init_text(*e),
    decreases e,
{
    match &e.kind {
        HExprKind::LitInt(n) => int_literal(*n),
        HExprKind::LitBool(b) => bool_literal(*b),
        HExprKind::LitChar(c) => char_literal(*c),
        HExprKind::LitFloat(v) => float_literal(v),
        HExprKind::LitStr(s) => str_literal(s),
        HExprKind::LitNull => own("NULL"),
        HExprKind::LitUnit => own("MAKA_UNIT"),
        HExprKind::Un { op, expr } => match op {
            HUnOp::Neg => cat3("(-(", &emit_global_init(expr), "))"),
            HUnOp::Not => own(NOT_CONSTANT),
        },
        HExprKind::Bin { op, lhs, rhs } => cat7(
            "((",
            &emit_global_init(lhs),
            ") ",
            binop_c(*op),
            " (",
            &emit_global_init(rhs),
            "))",
        ),
        _ => own(NOT_CONSTANT),
    }
}

/// The test that `__v` is a tag of the enum.
pub open spec fn tag_test(e: EnumInfo) -> Seq<char> {
    if e.variants@.len() == 0 {
        "0"@
    } else {
        text::joined(tag_tests(e, e.variants@.len()), " || "@)
    }
}

/// One comparison for each of the first `n` variants.
pub open spec fn tag_tests(e: EnumInfo, n: nat) -> Seq<Seq<char>> {
    Seq::new(n, |i: int| "__v == "@ + text::decimal(e.variants@[i].tag as int))
}

fn tag_condition(e: &EnumInfo) -> (r: String)
    ensures
        r@ == tag_test(*e),
{
    if e.variants.len() == 0 {
        return own("0");
    }
    let mut parts: Vec<String> = no_parts();
    let mut i: usize = 0;
    assert(tag_tests(*e, 0) =~= Seq::<Seq<char>>::empty());
    while i < e.variants.len()
        invariant
            i <= e.variants@.len(),
            text::views(parts@) == tag_tests(*e, i as nat),
        decreases e.variants@.len() - i,
    {
        push_part(&mut parts, cat2("__v == ", &dec_i64(e.variants[i].tag)));
        assert(tag_tests(*e, (i + 1) as nat) =~= tag_tests(*e, i as nat).push(
            "__v == "@ + text::decimal(e.variants@[i as int].tag as int),
        ));
        i += 1;
    }
    join(&parts, " || ")
}

/// The value `s` cast to the type `to`.
pub open spec fn cast_text(sym: SymTab, s: Seq<char>, kind: CastKind, to: HType) -> Seq<char> {
    let plain = "(("@ + ctypes::ty_c(sym, to) + ")"@ + s + ")"@;
    match kind {
        CastKind::IntToEnumChecked => match to {
            HType::Enum(id) => {
                let e = sym.the_enum(id);
                "(__extension__ ({ maka_int __v = ("@ + s + "); if (!("@ + tag_test(e)
                    + ")) { maka_panic(\"`int as "@ + e.name@ + "`: tag out of range\"); } ("@
                    + text::ident(e.name@) + ")__v; }))"@
            },
            _ => plain,
        },
        CastKind::IntPtrToEnumPtrChecked => match to {
            HType::Ptr { inner, .. } => match *inner {
                HType::Enum(id) => {
                    let e = sym.the_enum(id);
                    "(__extension__ ({ maka_int* __p = ("@ + s + "); maka_int __v = *__p; ("@
                        + tag_test(e) + ") ? ("@ + text::ident(e.name@) + "*)__p : ("@ + text::ident(e.name@)
                        + "*)0; }))"@
                },
                _ => plain,
            },
            _ => plain,
        },
        CastKind::Reinterpret => "(("@ + ctypes::ty_c(sym, to) + ")(uintptr_t)("@ + s + "))"@,
        _ => plain,
    }
}

/// Writes a cast of a value.
pub fn emit_cast(sym: &SymTab, s: &str, kind: &CastKind, to: &HType) -> (r: String)
    requires
        ctypes::ty_ok(*sym, *to),
    ensures
        r@ == cast_text(*sym, s@, *kind, *to),
{
    let to_c: String = c_type(sym, to);
    let plain: String = cat5("((", &to_c, ")", s, ")");
    match kind {
        CastKind::IntToEnumChecked => match to {
            HType::Enum(id) => {
                let e: &EnumInfo = sym.enum_info(*id);
                cat9(
                    "(__extension__ ({ maka_int __v = (",
                    s,
                    "); if (!(",
                    &tag_condition(e),
                    ")) { maka_panic(\"`int as ",
                    &e.name,
                    "`: tag out of range\"); } (",
                    &c_ident(&e.name),
                    ")__v; }))",
                )
            },
            _ => plain,
        },
        CastKind::IntPtrToEnumPtrChecked => match to {
            HType::Ptr { inner, .. } => match &**inner {
                HType::Enum(id) => {
                    assert(ctypes::ty_ok(*sym, **inner));
                    let e: &EnumInfo = sym.enum_info(*id);
                    let ec: String = c_ident(&e.name);
                    cat9(
                        "(__extension__ ({ maka_int* __p = (",
                        s,
                        "); maka_int __v = *__p; (",
                        &tag_condition(e),
                        ") ? (",
                        &ec,
                        "*)__p : (",
                        &ec,
                        "*)0; }))",
                    )
                },
                _ => plain,
            },
            _ => plain,
        },
        CastKind::Reinterpret => cat5("((", &to_c, ")(uintptr_t)(", s, "))"),
        _ => plain,
    }
}

} // verus!
