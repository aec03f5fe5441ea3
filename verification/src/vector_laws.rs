//! What the C code of `push` and `pop` does to a vector.
//!
//! The code of both is put together from a handful of C statements. Each has its text and
//! what it does to the vector behind `__vp`; the laws say that the texts are those that are
//! written, and what running them gives.
use vstd::prelude::*;

use crate::builtins;
use crate::builtins::Builtin;
use crate::context::{Cx, Out, St};
use crate::ctypes;
use crate::hir::{FuncId, HExpr, HExprKind, HType};
use crate::lowered;
use crate::text;

verus! {

/// A vector at run time: the values in the memory behind `data`, and the two counts.
pub struct Buffer<V> {
    pub cells: Seq<V>,
    pub len: nat,
    pub cap: nat,
}

impl<V> Buffer<V> {
    /// The memory has room for `cap` values, and no more than that are in use.
    pub open spec fn wf(self) -> bool {
        self.len <= self.cap && self.cells.len() == self.cap
    }

    /// The values in use.
    pub open spec fn values(self) -> Seq<V> {
        self.cells.take(self.len as int)
    }
}

/// A number in the code of a vector operation.
pub enum Term {
    /// `__vp->len`
    Len,
    /// `__vp->cap`
    Cap,
    Lit(nat),
    /// `a * b`
    Times(Box<Term>, Box<Term>),
    /// `a ? b : c`
    Pick(Box<Term>, Box<Term>, Box<Term>),
}

/// The C text of a number.
pub open spec fn term_text(t: Term) -> Seq<char>
    decreases t,
{
    match t {
        Term::Len => "__vp->len"@,
        Term::Cap => "__vp->cap"@,
        Term::Lit(n) => text::decimal(n as int),
        Term::Times(a, b) => term_text(*a) + " * "@ + term_text(*b),
        Term::Pick(a, b, c) => term_text(*a) + " ? "@ + term_text(*b) + " : "@ + term_text(*c),
    }
}

/// The value of a number.
pub open spec fn term_value<V>(t: Term, v: Buffer<V>) -> nat
    decreases t,
{
    match t {
        Term::Len => v.len,
        Term::Cap => v.cap,
        Term::Lit(n) => n,
        Term::Times(a, b) => term_value(*a, v) * term_value(*b, v),
        Term::Pick(a, b, c) => if term_value(*a, v) != 0 {
            term_value(*b, v)
        } else {
            term_value(*c, v)
        },
    }
}

/// A statement in the code of a vector operation.
pub enum Act {
    /// `if (a == b) { .. }`
    When(Term, Term, Box<Code>),
    /// Sets `__vp->cap`.
    SetCap(Term),
    /// Gives the buffer room for `__vp->cap` values.
    Resize,
    /// Stores a value, given by its C text, behind the last one, and counts it.
    Append(Seq<char>),
    /// Counts one value less.
    Shrink,
    /// Ends the program with a message.
    Panic(Seq<char>),
}

/// Statements one after the other.
pub enum Code {
    End,
    Then(Act, Box<Code>),
}

/// The C text of a statement.
pub open spec fn act_text(a: Act) -> Seq<char>
    decreases a,
{
    match a {
        Act::When(x, y, code) => "if ("@ + term_text(x) + " == "@ + term_text(y) + ") { "@
            + code_text(*code) + "} "@,
        Act::SetCap(t) => "__vp->cap = "@ + term_text(t) + "; "@,
        Act::Resize => "__vp->data = realloc(__vp->data, __vp->cap * sizeof(*__vp->data)); "@,
        Act::Append(x) => "__vp->data[__vp->len++] = ("@ + x + "); "@,
        Act::Shrink => "__vp->len--; "@,
        Act::Panic(message) => "maka_panic(\""@ + message + "\"); "@,
    }
}

/// The C text of statements.
pub open spec fn code_text(c: Code) -> Seq<char>
    decreases c,
{
    match c {
        Code::End => ""@,
        Code::Then(a, rest) => act_text(a) + code_text(*rest),
    }
}

/// Where running code gets to.
pub enum Reached<V> {
    /// Its end, with the vector as it then is.
    Next(Buffer<V>),
    /// A panic, with the vector as it then was.
    Stopped(Seq<char>, Buffer<V>),
    /// An access past the end of the buffer.
    Astray,
}

/// Memory for `n` values that was resized from `cells`; `fresh` is what new memory holds.
pub open spec fn resized<V>(cells: Seq<V>, n: nat, fresh: spec_fn(int) -> V) -> Seq<V> {
    Seq::new(n, |i: int| if i < cells.len() { cells[i] } else { fresh(i) })
}

/// What a statement does, where the value of an appended text is `x` and memory is found.
pub open spec fn act_run<V>(a: Act, v: Buffer<V>, x: V, fresh: spec_fn(int) -> V) -> Reached<V>
    decreases a,
{
    match a {
        Act::When(s, t, code) => if term_value(s, v) == term_value(t, v) {
            code_run(*code, v, x, fresh)
        } else {
            Reached::Next(v)
        },
        Act::SetCap(t) => Reached::Next(Buffer { cap: term_value(t, v), ..v }),
        Act::Resize => Reached::Next(Buffer { cells: resized(v.cells, v.cap, fresh), ..v }),
        Act::Append(_) => if v.len < v.cells.len() {
            Reached::Next(Buffer { cells: v.cells.update(v.len as int, x), len: v.len + 1, ..v })
        } else {
            Reached::Astray
        },
        Act::Shrink => if v.len > 0 {
            Reached::Next(Buffer { len: (v.len - 1) as nat, ..v })
        } else {
            Reached::Astray
        },
        Act::Panic(message) => Reached::Stopped(message, v),
    }
}

/// What statements do, one after the other.
pub open spec fn code_run<V>(c: Code, v: Buffer<V>, x: V, fresh: spec_fn(int) -> V) -> Reached<V>
    decreases c,
{
    match c {
        Code::End => Reached::Next(v),
        Code::Then(a, rest) => match act_run(a, v, x, fresh) {
            Reached::Next(w) => code_run(*rest, w, x, fresh),
            r => r,
        },
    }
}

/// One statement.
pub open spec fn only(a: Act) -> Code {
    Code::Then(a, Box::new(Code::End))
}

/// Two statements.
pub open spec fn both(a: Act, b: Act) -> Code {
    Code::Then(a, Box::new(only(b)))
}

/// The capacity after growth: twice the old one, or four.
pub open spec fn doubled() -> Term {
    Term::Pick(
        Box::new(Term::Cap),
        Box::new(Term::Times(Box::new(Term::Cap), Box::new(Term::Lit(2)))),
        Box::new(Term::Lit(4)),
    )
}

/// The statements of `push` with the text `x` of the new value.
pub open spec fn push_code(x: Seq<char>) -> Code {
    both(
        Act::When(Term::Len, Term::Cap, Box::new(both(Act::SetCap(doubled()), Act::Resize))),
        Act::Append(x),
    )
}

/// The statements of `pop`; the value is then `__vp->data[__vp->len]`.
pub open spec fn pop_code() -> Code {
    both(
        Act::When(Term::Len, Term::Lit(0), Box::new(only(Act::Panic("pop from empty Vec"@)))),
        Act::Shrink,
    )
}

/// A vector operation in C: the pointer to the vector, the statements and the result.
pub open spec fn operation_text(
    ty: Seq<char>,
    vector: Seq<char>,
    code: Code,
    result: Seq<char>,
) -> Seq<char> {
    "(__extension__ ({ "@ + ty + " __vp = "@ + vector + "; "@ + code_text(code) + result + "; }))"@
}

proof fn lemma_digit_text(n: nat)
    requires
        n < 10,
    ensures
        text::decimal(n as int) == seq![text::digit(n)],
{
    reveal_with_fuel(text::digits, 1);
}

proof fn lemma_push_code_text(x: Seq<char>)
    ensures
        "; "@ + code_text(push_code(x)) + "MAKA_UNIT"@ + "; }))"@
            == "; if (__vp->len == __vp->cap) { __vp->cap = __vp->cap ? __vp->cap * 2 : 4; __vp->data = realloc(__vp->data, __vp->cap * sizeof(*__vp->data)); } __vp->data[__vp->len++] = ("@
            + x + "); MAKA_UNIT; }))"@,
{
    reveal_with_fuel(code_text, 4);
    reveal_with_fuel(act_text, 4);
    reveal_with_fuel(term_text, 4);
    lemma_digit_text(2);
    lemma_digit_text(4);
    let grow = both(Act::SetCap(doubled()), Act::Resize);
    reveal_strlit("");
    reveal_strlit("; ");
    reveal_strlit("if (");
    reveal_strlit(" == ");
    reveal_strlit(") { ");
    reveal_strlit("} ");
    reveal_strlit("__vp->len");
    reveal_strlit("__vp->cap");
    reveal_strlit(" * ");
    reveal_strlit(" ? ");
    reveal_strlit(" : ");
    reveal_strlit("__vp->cap = ");
    reveal_strlit("__vp->data = realloc(__vp->data, __vp->cap * sizeof(*__vp->data)); ");
    reveal_strlit("__vp->data[__vp->len++] = (");
    reveal_strlit("); ");
    reveal_strlit("); MAKA_UNIT; }))");
    reveal_strlit("MAKA_UNIT");
    reveal_strlit("; }))");
    reveal_strlit(
        "; if (__vp->len == __vp->cap) { __vp->cap = __vp->cap ? __vp->cap * 2 : 4; __vp->data = realloc(__vp->data, __vp->cap * sizeof(*__vp->data)); } __vp->data[__vp->len++] = (",
    );
    let head = "; if (__vp->len == __vp->cap) { __vp->cap = __vp->cap ? __vp->cap * 2 : 4; __vp->data = realloc(__vp->data, __vp->cap * sizeof(*__vp->data)); } __vp->data[__vp->len++] = ("@;
    let cap = "__vp->cap"@;
    let pick = cap + " ? "@ + (cap + " * "@ + seq!['2']) + " : "@ + seq!['4'];
    assert(term_text(doubled()) == pick);
    let set = "__vp->cap = "@ + pick + "; "@;
    let resize = "__vp->data = realloc(__vp->data, __vp->cap * sizeof(*__vp->data)); "@;
    assert(code_text(grow) =~= set + resize);
    let when = "if ("@ + "__vp->len"@ + " == "@ + cap + ") { "@ + (set + resize) + "} "@;
    let store = "__vp->data[__vp->len++] = ("@ + x + "); "@;
    assert(code_text(push_code(x)) =~= when + store);
    assert("; "@ + when + "__vp->data[__vp->len++] = ("@ =~= head);
    assert("); "@ + "MAKA_UNIT"@ + "; }))"@ =~= "); MAKA_UNIT; }))"@);
    assert("; "@ + (when + store) + "MAKA_UNIT"@ + "; }))"@ =~= ("; "@ + when
        + "__vp->data[__vp->len++] = ("@) + x + ("); "@ + "MAKA_UNIT"@ + "; }))"@));
}

proof fn lemma_pop_code_text()
    ensures
        "; "@ + code_text(pop_code()) + "__vp->data[__vp->len]"@ + "; }))"@
            == "; if (__vp->len == 0) { maka_panic(\"pop from empty Vec\"); } __vp->len--; __vp->data[__vp->len]; }))"@,
{
    reveal_with_fuel(code_text, 4);
    reveal_with_fuel(act_text, 4);
    reveal_with_fuel(term_text, 2);
    lemma_digit_text(0);
    reveal_strlit("");
    reveal_strlit("; ");
    reveal_strlit("if (");
    reveal_strlit(" == ");
    reveal_strlit(") { ");
    reveal_strlit("} ");
    reveal_strlit("__vp->len");
    reveal_strlit("maka_panic(\"");
    reveal_strlit("pop from empty Vec");
    reveal_strlit("\"); ");
    reveal_strlit("__vp->len--; ");
    reveal_strlit("__vp->data[__vp->len]");
    reveal_strlit("; }))");
    reveal_strlit(
        "; if (__vp->len == 0) { maka_panic(\"pop from empty Vec\"); } __vp->len--; __vp->data[__vp->len]; }))",
    );
    let stop = "maka_panic(\""@ + "pop from empty Vec"@ + "\"); "@;
    assert(code_text(only(Act::Panic("pop from empty Vec"@))) =~= stop);
    let when = "if ("@ + "__vp->len"@ + " == "@ + seq!['0'] + ") { "@ + stop + "} "@;
    assert(code_text(pop_code()) =~= when + "__vp->len--; "@);
    assert("; "@ + (when + "__vp->len--; "@) + "__vp->data[__vp->len]"@ + "; }))"@
        =~= "; if (__vp->len == 0) { maka_panic(\"pop from empty Vec\"); } __vp->len--; __vp->data[__vp->len]; }))"@);
}

/// A call of `push(vector, value)`, whatever its arguments, is written as the code of `push`.
pub proof fn law_push_is_its_code(d: nat, cx: Cx, st: St, args: Vec<HExpr>, ty: HType)
    requires
        args@.len() == 2,
    ensures
        ({
            let call = HExpr {
                kind: HExprKind::Call { callee: FuncId((u32::MAX - 60) as u32), args },
                ty,
            };
            let v = lowered::expr_c(d, cx, st, args@[0]);
            let x = lowered::expr_c(d, cx, v.st, args@[1]);
            lowered::expr_c(d, cx, st, call) == (Out {
                text: operation_text(
                    ctypes::ty_c(cx.sym, args@[0].ty),
                    v.text,
                    push_code(x.text),
                    "MAKA_UNIT"@,
                ),
                st: x.st,
            })
        }),
{
    reveal(lowered::expr_c);
    reveal(lowered::call_c);
    reveal_with_fuel(lowered::exprs_c, 3);
    let v = lowered::expr_c(d, cx, st, args@[0]);
    let x = lowered::expr_c(d, cx, v.st, args@[1]);
    let a = lowered::exprs_c(d, cx, st, args, 0, 2);
    assert(lowered::exprs_c(d, cx, st, args, 0, 0).texts =~= Seq::empty());
    assert(lowered::exprs_c(d, cx, st, args, 0, 1).texts =~= seq![v.text]);
    assert(a.texts =~= seq![v.text, x.text]);
    let callee = FuncId((u32::MAX - 60) as u32);
    let call = HExpr { kind: HExprKind::Call { callee, args }, ty };
    assert(builtins::builtin_of(callee) == Some(Builtin::Push));
    assert(lowered::expr_c(d, cx, st, call) == lowered::call_c(d, cx, st, callee, args));
    assert(lowered::call_c(d, cx, st, callee, args) == (Out {
        text: builtins::builtin_c(cx.sym, Builtin::Push, args@, a.texts),
        st: a.st,
    }));
    lemma_push_code_text(x.text);
    let t = ctypes::ty_c(cx.sym, args@[0].ty);
    let open = "(__extension__ ({ "@ + t + " __vp = "@ + v.text;
    let code = code_text(push_code(x.text));
    assert(open + "; "@ + code + "MAKA_UNIT"@ + "; }))"@ =~= open + ("; "@ + code + "MAKA_UNIT"@
        + "; }))"@));
    let head = "; if (__vp->len == __vp->cap) { __vp->cap = __vp->cap ? __vp->cap * 2 : 4; __vp->data = realloc(__vp->data, __vp->cap * sizeof(*__vp->data)); } __vp->data[__vp->len++] = ("@;
    assert(open + head + x.text + "); MAKA_UNIT; }))"@ =~= open + (head + x.text
        + "); MAKA_UNIT; }))"@));
}

/// A call of `pop(vector)` is written as the code of `pop`, and its value is what then stands
/// behind the last element.
pub proof fn law_pop_is_its_code(d: nat, cx: Cx, st: St, args: Vec<HExpr>, ty: HType)
    requires
        args@.len() == 1,
    ensures
        ({
            let call = HExpr {
                kind: HExprKind::Call { callee: FuncId((u32::MAX - 61) as u32), args },
                ty,
            };
            let v = lowered::expr_c(d, cx, st, args@[0]);
            lowered::expr_c(d, cx, st, call) == (Out {
                text: operation_text(
                    ctypes::ty_c(cx.sym, args@[0].ty),
                    v.text,
                    pop_code(),
                    "__vp->data[__vp->len]"@,
                ),
                st: v.st,
            })
        }),
{
    reveal(lowered::expr_c);
    reveal(lowered::call_c);
    reveal_with_fuel(lowered::exprs_c, 2);
    let v = lowered::expr_c(d, cx, st, args@[0]);
    let a = lowered::exprs_c(d, cx, st, args, 0, 1);
    assert(lowered::exprs_c(d, cx, st, args, 0, 0).texts =~= Seq::empty());
    assert(a.texts =~= seq![v.text]);
    let callee = FuncId((u32::MAX - 61) as u32);
    let call = HExpr { kind: HExprKind::Call { callee, args }, ty };
    assert(builtins::builtin_of(callee) == Some(Builtin::Pop));
    assert(lowered::expr_c(d, cx, st, call) == lowered::call_c(d, cx, st, callee, args));
    assert(lowered::call_c(d, cx, st, callee, args) == (Out {
        text: builtins::builtin_c(cx.sym, Builtin::Pop, args@, a.texts),
        st: a.st,
    }));
    lemma_pop_code_text();
    let t = ctypes::ty_c(cx.sym, args@[0].ty);
    let open = "(__extension__ ({ "@ + t + " __vp = "@ + v.text;
    let code = code_text(pop_code());
    let result = "__vp->data[__vp->len]"@;
    assert(open + "; "@ + code + result + "; }))"@ =~= open + ("; "@ + code + result + "; }))"@));
}

/// `push` appends the value and changes no other. It grows the buffer only where it is full,
/// to four values or to twice the old capacity, and before it stores the value, so that
/// nothing is written past the buffer's end.
pub proof fn law_push_appends<V>(v: Buffer<V>, text: Seq<char>, x: V, fresh: spec_fn(int) -> V)
    requires
        v.wf(),
    ensures
        code_run(push_code(text), v, x, fresh) matches Reached::Next(w) && {
            &&& w.wf()
            &&& w.values() == v.values().push(x)
            &&& w.cap == (if v.len < v.cap {
                v.cap
            } else if v.cap == 0 {
                4
            } else {
                v.cap * 2
            })
        },
{
    reveal_with_fuel(code_run, 4);
    reveal_with_fuel(act_run, 4);
    reveal_with_fuel(term_value, 4);
    let grow = both(Act::SetCap(doubled()), Act::Resize);
    let cap = term_value(doubled(), v);
    assert(cap == (if v.cap == 0 { 4 } else { v.cap * 2 }));
    let g = if v.len == v.cap {
        Buffer { cells: resized(v.cells, cap, fresh), len: v.len, cap }
    } else {
        v
    };
    assert(v.len == v.cap ==> code_run(grow, v, x, fresh) == Reached::Next(g));
    let w = Buffer { cells: g.cells.update(g.len as int, x), len: g.len + 1, cap: g.cap };
    assert(code_run(push_code(text), v, x, fresh) == Reached::Next(w));
    assert(w.values() =~= v.values().push(x));
}

/// `pop` gives the last value, which stands behind the shortened vector, and leaves the
/// others. On an empty vector it panics before it changes or reads anything.
pub proof fn law_pop_takes_the_last<V>(v: Buffer<V>, x: V, fresh: spec_fn(int) -> V)
    requires
        v.wf(),
    ensures
        v.len == 0 ==> code_run(pop_code(), v, x, fresh) == Reached::Stopped(
            "pop from empty Vec"@,
            v,
        ),
        v.len > 0 ==> (code_run(pop_code(), v, x, fresh) matches Reached::Next(w) && {
            &&& w.wf()
            &&& w.cap == v.cap
            &&& w.values() == v.values().drop_last()
            &&& w.cells[w.len as int] == v.values().last()
        }),
{
    reveal_with_fuel(code_run, 4);
    reveal_with_fuel(act_run, 4);
    if v.len > 0 {
        let w = Buffer { len: (v.len - 1) as nat, ..v };
        assert(code_run(pop_code(), v, x, fresh) == Reached::Next(w));
        assert(w.values() =~= v.values().drop_last());
    }
}

/// `pop` gives back what `push` put there, and the vector holds what it held before.
pub proof fn law_pop_undoes_push<V>(v: Buffer<V>, text: Seq<char>, x: V, fresh: spec_fn(int) -> V)
    requires
        v.wf(),
    ensures
        code_run(push_code(text), v, x, fresh) matches Reached::Next(w) && (code_run(
            pop_code(),
            w,
            x,
            fresh,
        ) matches Reached::Next(u) && {
            &&& u.wf()
            &&& u.len == v.len
            &&& u.values() == v.values()
            &&& u.cells[u.len as int] == x
        }),
{
    law_push_appends(v, text, x, fresh);
    if let Reached::Next(w) = code_run(push_code(text), v, x, fresh) {
        law_pop_takes_the_last(w, x, fresh);
        assert(w.values().len() == w.len);
        assert(v.values().len() == v.len);
        assert(w.values().drop_last() =~= v.values());
        assert(w.values().last() == x);
    }
}

} // verus!
