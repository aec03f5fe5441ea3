//! Pieces of C: how they are written and what they are worth.
//!
//! A piece is a C expression together with its value, which is a function of the names in
//! scope, of what pointers lead to and of what calls give back. Each way of putting pieces
//! together writes C's syntax and gives C's meaning. Lowered code is compared with pieces:
//! its text is that of a piece whose value is the one that the program asks for.
use vstd::prelude::*;

use crate::text;

verus! {

/// A value at run time.
pub enum Val {
    Num(int),
    Unit,
    /// A struct, by its members.
    Rec(Map<Seq<char>, Val>),
    /// The elements of an array, in order.
    List(Seq<Val>),
    /// A pointer into a block of memory.
    Addr(int, int),
    /// What a name stands for that no local has.
    Named(Seq<char>),
    /// A value that is not looked into.
    Odd,
}

/// What the value of a piece depends on.
pub struct World {
    pub names: Map<Seq<char>, Val>,
    /// What stands a number of elements behind a pointer.
    pub cells: spec_fn(Val, int) -> Val,
    /// What a function gives back for its arguments.
    pub calls: spec_fn(Val, Seq<Val>) -> Val,
}

impl World {
    /// The same with one more local.
    pub open spec fn knowing(self, name: Seq<char>, v: Val) -> World {
        World { names: self.names.insert(name, v), ..self }
    }
}

/// A C expression and its value.
pub struct Piece {
    pub text: Seq<char>,
    pub value: spec_fn(World) -> Val,
}

/// The texts of pieces.
pub open spec fn texts_of(v: Seq<Piece>) -> Seq<Seq<char>> {
    Seq::new(v.len(), |i: int| v[i].text)
}

/// The values of pieces.
pub open spec fn values_of(v: Seq<Piece>, w: World) -> Seq<Val> {
    Seq::new(v.len(), |i: int| (v[i].value)(w))
}

/// A value that the text stands for whatever is in scope.
pub open spec fn constant(text: Seq<char>, v: Val) -> Piece {
    Piece { text, value: |w: World| v }
}

/// A name.
pub open spec fn a_name(n: Seq<char>) -> Piece {
    Piece {
        text: n,
        value: |w: World| if w.names.dom().contains(n) { w.names[n] } else { Val::Named(n) },
    }
}

/// `(e)`
pub open spec fn paren(e: Piece) -> Piece {
    Piece { text: "("@ + e.text + ")"@, value: e.value }
}

/// The number that a value is.
pub open spec fn number(v: Val) -> int {
    match v {
        Val::Num(n) => n,
        _ => 0,
    }
}

/// A truth value as C has it.
pub open spec fn truth(b: bool) -> int {
    if b { 1 } else { 0 }
}

/// Division as in C, towards zero.
pub open spec fn quotient(a: int, b: int) -> int {
    if b == 0 {
        0
    } else if (a >= 0) == (b > 0) {
        abs(a) / abs(b)
    } else {
        -(abs(a) / abs(b))
    }
}

/// The remainder that goes with it.
pub open spec fn remainder(a: int, b: int) -> int {
    a - quotient(a, b) * b
}

/// The magnitude of a number.
pub open spec fn abs(a: int) -> int {
    if a < 0 { -a } else { a }
}

/// What C computes for `a op b`, by the characters of the operator.
pub open spec fn c_binary(op: Seq<char>, a: int, b: int) -> int {
    if op.len() == 1 {
        if op[0] == '+' {
            a + b
        } else if op[0] == '-' {
            a - b
        } else if op[0] == '*' {
            a * b
        } else if op[0] == '/' {
            quotient(a, b)
        } else if op[0] == '%' {
            remainder(a, b)
        } else if op[0] == '<' {
            truth(a < b)
        } else if op[0] == '>' {
            truth(a > b)
        } else if op[0] == '&' {
            ((a as i64) & (b as i64)) as int
        } else if op[0] == '|' {
            ((a as i64) | (b as i64)) as int
        } else {
            ((a as i64) ^ (b as i64)) as int
        }
    } else {
        if op[0] == '=' {
            truth(a == b)
        } else if op[0] == '!' {
            truth(a != b)
        } else if op[0] == '<' && op[1] == '=' {
            truth(a <= b)
        } else if op[0] == '>' && op[1] == '=' {
            truth(a >= b)
        } else if op[0] == '&' {
            truth(a != 0 && b != 0)
        } else if op[0] == '|' {
            truth(a != 0 || b != 0)
        } else if op[0] == '<' {
            ((a as i64) << (b as i64)) as int
        } else {
            ((a as i64) >> (b as i64)) as int
        }
    }
}

/// `a op b` on numbers.
pub open spec fn binary(op: Seq<char>, a: Piece, b: Piece) -> Piece {
    Piece {
        text: a.text + " "@ + op + " "@ + b.text,
        value: |w: World| Val::Num(c_binary(op, number((a.value)(w)), number((b.value)(w)))),
    }
}

/// `-e`
pub open spec fn negated(e: Piece) -> Piece {
    Piece { text: "-"@ + e.text, value: |w: World| Val::Num(-number((e.value)(w))) }
}

/// `!e`
pub open spec fn denied(e: Piece) -> Piece {
    Piece {
        text: "!"@ + e.text,
        value: |w: World| Val::Num(truth(number((e.value)(w)) == 0)),
    }
}

/// The member of a struct.
pub open spec fn member(v: Val, f: Seq<char>) -> Val {
    match v {
        Val::Rec(m) => m[f],
        _ => Val::Odd,
    }
}

/// `e.f`
pub open spec fn dot(e: Piece, f: Seq<char>) -> Piece {
    Piece { text: e.text + "."@ + f, value: |w: World| member((e.value)(w), f) }
}

/// `e->f`
pub open spec fn arrow(e: Piece, f: Seq<char>) -> Piece {
    Piece {
        text: e.text + "->"@ + f,
        value: |w: World| member((w.cells)((e.value)(w), 0), f),
    }
}

/// `*e`
pub open spec fn target(e: Piece) -> Piece {
    Piece { text: "*"@ + e.text, value: |w: World| (w.cells)((e.value)(w), 0) }
}

/// `e[i]`
pub open spec fn indexed(e: Piece, i: Piece) -> Piece {
    Piece {
        text: e.text + "["@ + i.text + "]"@,
        value: |w: World| (w.cells)((e.value)(w), number((i.value)(w))),
    }
}

/// `(t)e`, where the value has the same meaning in both types.
pub open spec fn cast(t: Seq<char>, e: Piece) -> Piece {
    Piece { text: "("@ + t + ")"@ + e.text, value: e.value }
}

/// `f(a, b, ..)`
pub open spec fn call(f: Piece, args: Seq<Piece>) -> Piece {
    Piece {
        text: f.text + "("@ + text::joined(texts_of(args), ", "@) + ")"@,
        value: |w: World| (w.calls)((f.value)(w), values_of(args, w)),
    }
}

/// `a, b`
pub open spec fn then_value(a: Piece, b: Piece) -> Piece {
    Piece { text: a.text + ", "@ + b.text, value: b.value }
}

/// `c ? a : b`
pub open spec fn pick(c: Piece, a: Piece, b: Piece) -> Piece {
    Piece {
        text: c.text + " ? "@ + a.text + " : "@ + b.text,
        value: |w: World| if number((c.value)(w)) != 0 { (a.value)(w) } else { (b.value)(w) },
    }
}

/// The values of members by name.
pub open spec fn members(names: Seq<Seq<char>>, v: Seq<Piece>, w: World, n: nat) -> Map<
    Seq<char>,
    Val,
>
    decreases n,
{
    if n == 0 || n > names.len() || n > v.len() {
        Map::empty()
    } else {
        members(names, v, w, (n - 1) as nat).insert(names[n - 1], (v[n - 1].value)(w))
    }
}

/// The initializers `.a = x`.
pub open spec fn initializers(names: Seq<Seq<char>>, v: Seq<Piece>) -> Seq<Seq<char>> {
    Seq::new(names.len(), |i: int| "."@ + names[i] + " = "@ + v[i].text)
}

/// `(t){ .a = x, .b = y }`
pub open spec fn record(t: Seq<char>, names: Seq<Seq<char>>, v: Seq<Piece>) -> Piece {
    Piece {
        text: "("@ + t + "){ "@ + text::joined(initializers(names, v), ", "@) + " }"@,
        value: |w: World| Val::Rec(members(names, v, w, names.len())),
    }
}

/// `{ x, y }`, the elements of an array.
pub open spec fn elements(v: Seq<Piece>) -> Piece {
    Piece {
        text: "{ "@ + text::joined(texts_of(v), ", "@) + " }"@,
        value: |w: World| Val::List(values_of(v, w)),
    }
}

/// The end of a block that is an expression: its value.
pub open spec fn result(e: Piece) -> Piece {
    Piece { text: e.text + "; "@, value: e.value }
}

/// `t n = e; ..`
pub open spec fn declare(t: Seq<char>, n: Seq<char>, e: Piece, rest: Piece) -> Piece {
    Piece {
        text: t + " "@ + n + " = "@ + e.text + "; "@ + rest.text,
        value: |w: World| (rest.value)(w.knowing(n, (e.value)(w))),
    }
}

/// `(__extension__ ({ .. }))`
pub open spec fn block_value(rest: Piece) -> Piece {
    Piece { text: "(__extension__ ({ "@ + rest.text + "}))"@, value: rest.value }
}

/// How texts are put together makes no difference.
pub broadcast proof fn lemma_put_together(a: Seq<char>, b: Seq<char>, c: Seq<char>)
    ensures
        #[trigger] (a + (b + c)) == (a + b) + c,
{
    assert(a + (b + c) =~= (a + b) + c);
}

} // verus!
