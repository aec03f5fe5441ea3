//! What the written operators and literals mean.
use vstd::prelude::*;

use crate::hir::{HAssignOp, HBinOp};
use crate::operators;
use crate::pieces;
use crate::text;

verus! {

/// What a binary operator of the language computes. Comparisons and logic give 1 or 0.
pub open spec fn op_value(op: HBinOp, a: int, b: int) -> int {
    match op {
        HBinOp::Add => a + b,
        HBinOp::Sub => a - b,
        HBinOp::Mul => a * b,
        HBinOp::Div => pieces::quotient(a, b),
        HBinOp::Mod => pieces::remainder(a, b),
        HBinOp::Eq => pieces::truth(a == b),
        HBinOp::Ne => pieces::truth(a != b),
        HBinOp::Lt => pieces::truth(a < b),
        HBinOp::Le => pieces::truth(a <= b),
        HBinOp::Gt => pieces::truth(a > b),
        HBinOp::Ge => pieces::truth(a >= b),
        HBinOp::And => pieces::truth(a != 0 && b != 0),
        HBinOp::Or => pieces::truth(a != 0 || b != 0),
        HBinOp::BitAnd => ((a as i64) & (b as i64)) as int,
        HBinOp::BitOr => ((a as i64) | (b as i64)) as int,
        HBinOp::BitXor => ((a as i64) ^ (b as i64)) as int,
        HBinOp::Shl => ((a as i64) << (b as i64)) as int,
        HBinOp::Shr => ((a as i64) >> (b as i64)) as int,
    }
}

proof fn lemma_operator_chars(op: HBinOp)
    ensures
        match op {
            HBinOp::Add => operators::binop_text(op) =~= seq!['+'],
            HBinOp::Sub => operators::binop_text(op) =~= seq!['-'],
            HBinOp::Mul => operators::binop_text(op) =~= seq!['*'],
            HBinOp::Div => operators::binop_text(op) =~= seq!['/'],
            HBinOp::Mod => operators::binop_text(op) =~= seq!['%'],
            HBinOp::Eq => operators::binop_text(op) =~= seq!['=', '='],
            HBinOp::Ne => operators::binop_text(op) =~= seq!['!', '='],
            HBinOp::Lt => operators::binop_text(op) =~= seq!['<'],
            HBinOp::Le => operators::binop_text(op) =~= seq!['<', '='],
            HBinOp::Gt => operators::binop_text(op) =~= seq!['>'],
            HBinOp::Ge => operators::binop_text(op) =~= seq!['>', '='],
            HBinOp::And => operators::binop_text(op) =~= seq!['&', '&'],
            HBinOp::Or => operators::binop_text(op) =~= seq!['|', '|'],
            HBinOp::BitAnd => operators::binop_text(op) =~= seq!['&'],
            HBinOp::BitOr => operators::binop_text(op) =~= seq!['|'],
            HBinOp::BitXor => operators::binop_text(op) =~= seq!['^'],
            HBinOp::Shl => operators::binop_text(op) =~= seq!['<', '<'],
            HBinOp::Shr => operators::binop_text(op) =~= seq!['>', '>'],
        },
{
    reveal_strlit("+");
    reveal_strlit("-");
    reveal_strlit("*");
    reveal_strlit("/");
    reveal_strlit("%");
    reveal_strlit("==");
    reveal_strlit("!=");
    reveal_strlit("<");
    reveal_strlit("<=");
    reveal_strlit(">");
    reveal_strlit(">=");
    reveal_strlit("&&");
    reveal_strlit("||");
    reveal_strlit("&");
    reveal_strlit("|");
    reveal_strlit("^");
    reveal_strlit("<<");
    reveal_strlit(">>");
}

/// The operator that is written computes in C what the operator of the language computes.
pub proof fn law_operator_means_itself(op: HBinOp, a: int, b: int)
    ensures
        pieces::c_binary(operators::binop_text(op), a, b) == op_value(op, a, b),
{
    lemma_operator_chars(op);
}

/// No two operators are written alike.
pub proof fn law_operators_differ(p: HBinOp, q: HBinOp)
    requires
        operators::binop_text(p) == operators::binop_text(q),
    ensures
        p == q,
{
    lemma_operator_chars(p);
    lemma_operator_chars(q);
    let t = operators::binop_text(p);
    assert(t.len() == operators::binop_text(q).len() && t[0] == operators::binop_text(q)[0]);
    assert(t.len() > 1 ==> t[1] == operators::binop_text(q)[1]);
}

/// The value that an assignment leaves in its place, given the old one.
pub open spec fn assigned_value(op: HAssignOp, old_value: int, v: int) -> int {
    match op {
        HAssignOp::Assign => v,
        HAssignOp::Add => old_value + v,
        HAssignOp::Sub => old_value - v,
        HAssignOp::Mul => old_value * v,
        HAssignOp::Div => pieces::quotient(old_value, v),
        HAssignOp::Mod => pieces::remainder(old_value, v),
    }
}

/// What C leaves in `a` after `a op b`: for `=` the value, and for `o=` that of `a o b`.
pub open spec fn c_assigned(op: Seq<char>, a: int, b: int) -> int {
    if op.len() == 1 { b } else { pieces::c_binary(op.drop_last(), a, b) }
}

/// The assignment operator that is written does in C what that of the language does.
pub proof fn law_assignment_means_itself(op: HAssignOp, a: int, b: int)
    ensures
        operators::assign_text(op).len() > 0,
        operators::assign_text(op).last() == '=',
        c_assigned(operators::assign_text(op), a, b) == assigned_value(op, a, b),
{
    reveal_strlit("=");
    reveal_strlit("+=");
    reveal_strlit("-=");
    reveal_strlit("*=");
    reveal_strlit("/=");
    reveal_strlit("%=");
}

/// The digit that a character is.
pub open spec fn digit_value(c: char) -> int {
    c as int - '0' as int
}

/// The number that decimal digits write.
pub open spec fn digits_value(t: Seq<char>) -> int
    decreases t.len(),
{
    if t.len() == 0 {
        0
    } else {
        10 * digits_value(t.drop_last()) + digit_value(t.last())
    }
}

/// The number that a text writes, with or without a sign.
pub open spec fn number_value(t: Seq<char>) -> int {
    if t.len() > 0 && t[0] == '-' { -digits_value(t.skip(1)) } else { digits_value(t) }
}

proof fn lemma_digits_value(n: nat)
    ensures
        digits_value(text::digits(n, 10)) == n,
        text::digits(n, 10).len() > 0,
        text::digits(n, 10)[0] != '-',
    decreases n,
{
    if n < 10 {
        assert(text::digits(n, 10) =~= seq![text::digit(n)]);
        assert(seq![text::digit(n)].drop_last() =~= Seq::empty());
        reveal_with_fuel(digits_value, 2);
    } else {
        lemma_digits_value(n / 10);
        let t = text::digits(n / 10, 10);
        assert(text::digits(n, 10) == t.push(text::digit(n % 10)));
        assert(t.push(text::digit(n % 10)).drop_last() =~= t);
    }
}

/// A number is written with the digits that give it back.
pub proof fn law_decimal_reads_back(n: int)
    ensures
        number_value(text::decimal(n)) == n,
{
    reveal_strlit("-");
    if n < 0 {
        lemma_digits_value((-n) as nat);
        let d = text::digits((-n) as nat, 10);
        assert(text::decimal(n) =~= seq!['-'] + d);
        assert(text::decimal(n).skip(1) =~= d);
    } else {
        lemma_digits_value(n as nat);
    }
}

/// What stands between two texts.
pub open spec fn between(whole: Seq<char>, before: nat, after: nat) -> Seq<char> {
    whole.subrange(before as int, whole.len() - after)
}

/// An integer literal is a `maka_int` with that value.
pub proof fn law_int_literal_has_its_value(n: i64)
    ensures
        text::begins(operators::int_text(n), "(maka_int)"@),
        number_value(between(operators::int_text(n), "(maka_int)"@.len(), 2)) == n,
        operators::int_text(n).skip(operators::int_text(n).len() - 2) =~= seq!['L', 'L'],
{
    reveal_strlit("(maka_int)");
    reveal_strlit("LL");
    law_decimal_reads_back(n as int);
    let t = operators::int_text(n);
    assert(between(t, 10, 2) =~= text::decimal(n as int));
    assert(t.take(10) =~= "(maka_int)"@);
}

/// A character literal is a `maka_char` with the character's code.
pub proof fn law_char_literal_has_its_code(c: char)
    ensures
        text::begins(operators::char_text(c), "(maka_char)"@),
        number_value(between(operators::char_text(c), "(maka_char)"@.len(), 1)) == c as int,
        operators::char_text(c).last() == 'u',
{
    reveal_strlit("(maka_char)");
    reveal_strlit("u");
    law_decimal_reads_back(c as int);
    let t = operators::char_text(c);
    assert(between(t, 11, 1) =~= text::decimal(c as int));
    assert(t.take(11) =~= "(maka_char)"@);
}

/// The value of the name of a truth value.
pub open spec fn c_truth(text: Seq<char>) -> Option<bool> {
    if text == "true"@ {
        Some(true)
    } else if text == "false"@ {
        Some(false)
    } else {
        None
    }
}

/// A truth value is written by its name.
pub proof fn law_bool_literal_has_its_value(b: bool)
    ensures
        c_truth(operators::bool_text(b)) == Some(b),
{
    reveal_strlit("true");
    reveal_strlit("false");
    assert("true"@.len() != "false"@.len());
}

/// A string literal is the escaped text between quotes, and nothing in it ends it early.
pub proof fn law_string_literal_is_its_text(s: Seq<char>)
    ensures
        operators::str_text(s).len() >= 2,
        operators::str_text(s)[0] == '"' && operators::str_text(s).last() == '"',
        text::unescaped(between(operators::str_text(s), 1, 1)) == s,
        text::literal_state(between(operators::str_text(s), 1, 1)) == Some(false),
{
    reveal_strlit("\"");
    let t = operators::str_text(s);
    assert(between(t, 1, 1) =~= text::escaped(s));
    text::law_escape_reads_back(s);
    text::law_escaped_is_literal(s);
}

} // verus!
