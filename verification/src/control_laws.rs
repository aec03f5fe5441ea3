//! What lowered control flow does.
//!
//! A step is a piece of C code together with what running it does to the state of the
//! program. The laws take steps for the parts of a statement, with their texts, and say what
//! the written statement does in terms of them. The same holds of the lines of a function and
//! of the single line of an expansion.
use vstd::prelude::*;

use crate::analysis;
use crate::context::{Cx, Out, St};
use crate::ctypes;
use crate::frames;
use crate::hir::{FuncId, HBlock, HExpr, HFunc, HStmt, HType, LocalId, SymTab};
use crate::lowered;
use crate::pieces;
use crate::text;
use crate::validity;

verus! {

/// How running code ends.
pub enum Flow<S> {
    /// At its end.
    Next(S),
    /// At a `break`.
    Broken(S),
    /// At a `continue`.
    Continued(S),
    /// By leaving the function or the expansion.
    Gone(S),
    /// Not within the number of turns that was allowed.
    Spent,
}

/// C code and what it does, within a number of turns of its loops.
#[verifier::reject_recursive_types(S)]
pub struct Step<S> {
    pub text: Seq<char>,
    pub run: spec_fn(S, nat) -> Flow<S>,
}

/// A C condition and where it holds.
#[verifier::reject_recursive_types(S)]
pub struct Cond<S> {
    pub text: Seq<char>,
    pub holds: spec_fn(S) -> bool,
}

/// How code is laid out: on one line, or on lines with an indentation.
pub enum Form {
    OneLine,
    Lines(Seq<char>),
}

/// The opening of a block.
pub open spec fn opening(form: Form, head: Seq<char>) -> Seq<char> {
    match form {
        Form::OneLine => head + "{ "@,
        Form::Lines(ind) => text::line_c(ind, head + "{"@),
    }
}

/// The turn from one block to its alternative.
pub open spec fn turning(form: Form) -> Seq<char> {
    match form {
        Form::OneLine => "} else { "@,
        Form::Lines(ind) => text::line_c(ind, "} else {"@),
    }
}

/// The end of a block.
pub open spec fn closing(form: Form) -> Seq<char> {
    match form {
        Form::OneLine => "} "@,
        Form::Lines(ind) => text::line_c(ind, "}"@),
    }
}

/// `if (c) { a }`
pub open spec fn if_alone<S>(form: Form, c: Cond<S>, a: Step<S>) -> Step<S> {
    Step {
        text: opening(form, "if ("@ + c.text + ") "@) + a.text + closing(form),
        run: |s: S, n: nat| if (c.holds)(s) { (a.run)(s, n) } else { Flow::Next(s) },
    }
}

/// `if (c) { a } else { b }`
pub open spec fn if_else<S>(form: Form, c: Cond<S>, a: Step<S>, b: Step<S>) -> Step<S> {
    Step {
        text: opening(form, "if ("@ + c.text + ") "@) + a.text + turning(form) + b.text + closing(
            form,
        ),
        run: |s: S, n: nat| if (c.holds)(s) { (a.run)(s, n) } else { (b.run)(s, n) },
    }
}

/// Turns of a loop: where the condition holds the body runs, then the step, then the loop
/// again; `break` ends it and `continue` goes on with the step.
pub open spec fn turns<S>(c: Cond<S>, p: spec_fn(S) -> S, a: Step<S>, s: S, n: nat) -> Flow<S>
    decreases n,
{
    if n == 0 {
        Flow::Spent
    } else if !(c.holds)(s) {
        Flow::Next(s)
    } else {
        match (a.run)(s, n) {
            Flow::Next(t) => turns(c, p, a, p(t), (n - 1) as nat),
            Flow::Continued(t) => turns(c, p, a, p(t), (n - 1) as nat),
            Flow::Broken(t) => Flow::Next(t),
            r => r,
        }
    }
}

/// What a loop without a step does between turns.
pub open spec fn stay<S>() -> spec_fn(S) -> S {
    |t: S| t
}

/// The turns of a loop as what it does.
pub open spec fn all_turns<S>(c: Cond<S>, p: spec_fn(S) -> S, a: Step<S>) -> spec_fn(S,
    nat) -> Flow<
    S,
> {
    |s: S, n: nat| turns(c, p, a, s, n)
}

proof fn lemma_turns<S>(c: Cond<S>, p: spec_fn(S) -> S, a: Step<S>)
    ensures
        turns_right(c, p, a, all_turns(c, p, a)),
{
    reveal(turns_right);
    let loops = all_turns(c, p, a);
    assert forall|s: S, n: nat| n > 0 implies #[trigger] loops(s, n) == (if (c.holds)(s) {
        match (a.run)(s, n) {
            Flow::Next(t) => loops(p(t), (n - 1) as nat),
            Flow::Continued(t) => loops(p(t), (n - 1) as nat),
            Flow::Broken(t) => Flow::Next(t),
            Flow::Gone(t) => Flow::Gone(t),
            Flow::Spent => Flow::Spent,
        }
    } else {
        Flow::Next(s)
    }) by {
        assert(loops(s, n) == turns(c, p, a, s, n));
    }
}

/// `while (c) { a }`
pub open spec fn while_loop<S>(form: Form, c: Cond<S>, a: Step<S>) -> Step<S> {
    Step {
        text: opening(form, "while ("@ + c.text + ") "@) + a.text + closing(form),
        run: all_turns(c, stay(), a),
    }
}

/// What the step of a loop does.
#[verifier::reject_recursive_types(S)]
pub struct Advance<S> {
    pub text: Seq<char>,
    pub does: spec_fn(S) -> S,
}

/// `first for (; c; p) { a }`
pub open spec fn for_loop<S>(
    form: Form,
    first: Step<S>,
    c: Cond<S>,
    p: Advance<S>,
    a: Step<S>,
) -> Step<S> {
    Step {
        text: first.text + opening(form, "for (; "@ + c.text + "; "@ + p.text + ") "@) + a.text
            + closing(form),
        run: |s: S, n: nat|
            match (first.run)(s, n) {
                Flow::Next(t) => all_turns(c, p.does, a)(t, n),
                r => r,
            },
    }
}

/// `{ a }`
pub open spec fn braces<S>(form: Form, note: Seq<char>, a: Step<S>) -> Step<S> {
    Step { text: opening(form, note) + a.text + closing(form), run: a.run }
}

/// The text of a block of an expansion, with its end.
pub open spec fn spliced_block(d: nat, cx: Cx, st: St, b: HBlock) -> Seq<char> {
    lowered::inline_stmts_c(d, cx, st, b.stmts, b.stmts@.len()).text + frames::spliced_end(
        cx.sym,
        cx.owns,
        cx.ind,
        cx.f,
        cx.tag->0,
        b,
    )
}

proof fn lemma_control_words()
    ensures
        "if ("@ == "if ("@,
        ") { "@ == ") "@ + "{ "@,
        "} else { "@ == "} "@ + "else { "@,
        ") {"@ == ") "@ + "{"@,
{
    reveal_strlit("if (");
    reveal_strlit(") { ");
    reveal_strlit(") ");
    reveal_strlit("{ ");
    reveal_strlit("} else { ");
    reveal_strlit("} ");
    reveal_strlit("else { ");
    reveal_strlit(") {");
    reveal_strlit("{");
    assert("if ("@ =~= "if ("@);
    assert(") { "@ =~= ") "@ + "{ "@);
    assert("} else { "@ =~= "} "@ + "else { "@);
    assert(") {"@ =~= ") "@ + "{"@);
}


proof fn lemma_if_text(c: Seq<char>, ind: Seq<char>)
    ensures
        text::line_c(ind, "if ("@ + c + ") {"@) == opening(Form::Lines(ind), "if ("@ + c + ") "@),
        "if ("@ + c + ") { "@ == opening(Form::OneLine, "if ("@ + c + ") "@),
{
    broadcast use pieces::lemma_put_together;

    lemma_control_words();
    assert("if ("@ + c + ") {"@ == "if ("@ + c + ") "@ + "{"@);
}

proof fn lemma_inline_if_text(
    h: Seq<char>,
    t: Seq<char>,
    te: Seq<char>,
    e: Seq<char>,
    ee: Seq<char>,
)
    ensures
        h + t + te + "} "@ == h + (t + te) + "} "@,
        h + t + te + "} "@ + "else { "@ + e + ee + "} "@ == h + (t + te) + "} else { "@ + (e + ee)
            + "} "@,
{
    broadcast use pieces::lemma_put_together;

    lemma_control_words();
}

/// An `if` runs its first block where the condition holds and its second one, or nothing,
/// where it does not.
pub proof fn law_if_runs_the_right_block<S>(
    d: nat,
    cx: Cx,
    st: St,
    cond: HExpr,
    then_b: HBlock,
    else_b: Option<HBlock>,
    c: Cond<S>,
    a: Step<S>,
    b: Step<S>,
)
    requires
        c.text == lowered::expr_c(d, cx, st, cond).text,
        a.text == lowered::block_c(d, cx.nested(), lowered::expr_c(d, cx, st, cond).st,
            then_b).text,
        else_b matches Some(e) ==> b.text == lowered::block_c(
            d,
            cx.nested(),
            lowered::block_c(d, cx.nested(), lowered::expr_c(d, cx, st, cond).st, then_b).st,
            e,
        ).text,
    ensures
        ({
            let form = Form::Lines(cx.ind);
            let whole = match else_b {
                Some(_) => if_else(form, c, a, b),
                None => if_alone(form, c, a),
            };
            &&& lowered::stmt_c(d, cx, st, HStmt::If { cond, then_b, else_b }).text == whole.text
            &&& forall|s: S, n: nat| (c.holds)(s) ==> #[trigger] (whole.run)(s, n) == (a.run)(s, n)
            &&& forall|s: S, n: nat|
                !(c.holds)(s) ==> #[trigger] (whole.run)(s, n) == (match else_b {
                    Some(_) => (b.run)(s, n),
                    None => Flow::Next(s),
                })
        }),
{
    reveal(lowered::stmt_c);
    reveal(lowered::expr_c);
    lemma_if_text(c.text, cx.ind);
}

/// The same in an expansion.
pub proof fn law_inline_if_runs_the_right_block<S>(
    d: nat,
    cx: Cx,
    st: St,
    cond: HExpr,
    then_b: HBlock,
    else_b: Option<HBlock>,
    c: Cond<S>,
    a: Step<S>,
    b: Step<S>,
)
    requires
        c.text == lowered::expr_c(d, cx, st, cond).text,
        a.text == spliced_block(d, cx, lowered::expr_c(d, cx, st, cond).st, then_b),
        else_b matches Some(e) ==> b.text == spliced_block(
            d,
            cx,
            lowered::inline_stmts_c(
                d,
                cx,
                lowered::expr_c(d, cx, st, cond).st,
                then_b.stmts,
                then_b.stmts@.len(),
            ).st,
            e,
        ),
    ensures
        ({
            let whole = match else_b {
                Some(_) => if_else(Form::OneLine, c, a, b),
                None => if_alone(Form::OneLine, c, a),
            };
            &&& lowered::inline_stmt_c(d, cx, st, HStmt::If { cond, then_b, else_b }).text
                == whole.text
            &&& forall|s: S, n: nat| (c.holds)(s) ==> #[trigger] (whole.run)(s, n) == (a.run)(s, n)
            &&& forall|s: S, n: nat|
                !(c.holds)(s) ==> #[trigger] (whole.run)(s, n) == (match else_b {
                    Some(_) => (b.run)(s, n),
                    None => Flow::Next(s),
                })
        }),
{
    reveal(lowered::inline_stmt_c);
    reveal(lowered::expr_c);
    lemma_if_text(c.text, cx.ind);
    let st1 = lowered::expr_c(d, cx, st, cond).st;
    let t = lowered::inline_stmts_c(d, cx, st1, then_b.stmts, then_b.stmts@.len());
    let te = frames::spliced_end(cx.sym, cx.owns, cx.ind, cx.f, cx.tag->0, then_b);
    let head = "if ("@ + c.text + ") { "@;
    match else_b {
        Some(e) => {
            let o = lowered::inline_stmts_c(d, cx, t.st, e.stmts, e.stmts@.len());
            let ee = frames::spliced_end(cx.sym, cx.owns, cx.ind, cx.f, cx.tag->0, e);
            lemma_inline_if_text(head, t.text, te, o.text, ee);
        },
        None => {
            lemma_inline_if_text(head, t.text, te, te, te);
        },
    }
}

/// One turn of a loop: nothing where the condition does not hold; else the body, and then the
/// step and the rest of the loop, unless the body leaves it.
#[verifier::opaque]
pub open spec fn turns_right<S>(
    c: Cond<S>,
    p: spec_fn(S) -> S,
    a: Step<S>,
    loops: spec_fn(S, nat) -> Flow<S>,
) -> bool {
    forall|s: S, n: nat|
        n > 0 ==> #[trigger] loops(s, n) == (if (c.holds)(s) {
            match (a.run)(s, n) {
                Flow::Next(t) => loops(p(t), (n - 1) as nat),
                Flow::Continued(t) => loops(p(t), (n - 1) as nat),
                Flow::Broken(t) => Flow::Next(t),
                Flow::Gone(t) => Flow::Gone(t),
                Flow::Spent => Flow::Spent,
            }
        } else {
            Flow::Next(s)
        })
}

proof fn lemma_while_text(c: Seq<char>, a: Seq<char>, ind: Seq<char>)
    ensures
        text::line_c(ind, "while ("@ + c + ") {"@) == opening(Form::Lines(ind), "while ("@ + c
            + ") "@),
        "while ("@ + c + ") { "@ == opening(Form::OneLine, "while ("@ + c + ") "@),
{
    broadcast use pieces::lemma_put_together;

    lemma_control_words();
    assert("while ("@ + c + ") {"@ == "while ("@ + c + ") "@ + "{"@);
}

/// A `while` loop runs its body as long as its condition holds.
pub proof fn law_while_runs_its_body<S>(
    d: nat,
    cx: Cx,
    st: St,
    cond: HExpr,
    body: HBlock,
    c: Cond<S>,
    a: Step<S>,
)
    requires
        c.text == lowered::expr_c(d, cx, st, cond).text,
        a.text == lowered::block_c(d, cx.nested(), lowered::expr_c(d, cx, st, cond).st, body).text,
    ensures
        lowered::stmt_c(d, cx, st, HStmt::While { cond, body }).text
            == while_loop(Form::Lines(cx.ind), c, a).text,
        turns_right(c, stay(), a, while_loop(Form::Lines(cx.ind), c, a).run),
{
    reveal(lowered::stmt_c);
    reveal(lowered::expr_c);
    lemma_turns(c, stay(), a);
    lemma_while_text(c.text, a.text, cx.ind);
}

/// The same in an expansion.
pub proof fn law_inline_while_runs_its_body<S>(
    d: nat,
    cx: Cx,
    st: St,
    cond: HExpr,
    body: HBlock,
    c: Cond<S>,
    a: Step<S>,
)
    requires
        c.text == lowered::expr_c(d, cx, st, cond).text,
        a.text == spliced_block(d, cx, lowered::expr_c(d, cx, st, cond).st, body),
    ensures
        lowered::inline_stmt_c(d, cx, st, HStmt::While { cond, body }).text
            == while_loop(Form::OneLine, c, a).text,
        turns_right(c, stay(), a, while_loop(Form::OneLine, c, a).run),
{
    reveal(lowered::inline_stmt_c);
    reveal(lowered::expr_c);
    lemma_turns(c, stay(), a);
    lemma_while_text(c.text, a.text, cx.ind);
    let t = lowered::inline_stmts_c(d, cx, lowered::expr_c(d, cx, st, cond).st, body.stmts,
        body.stmts@.len()).text;
    let end = frames::spliced_end(cx.sym, cx.owns, cx.ind, cx.f, cx.tag->0, body);
    let head = "while ("@ + c.text + ") { "@;
    assert(head + t + end + "} "@ =~= head + (t + end) + "} "@);
}

proof fn lemma_for_text(c: Seq<char>, p: Seq<char>, ind: Seq<char>)
    ensures
        text::line_c(ind, "for (; "@ + c + "; "@ + p + ") {"@) == opening(
            Form::Lines(ind),
            "for (; "@ + c + "; "@ + p + ") "@,
        ),
{
    broadcast use pieces::lemma_put_together;

    lemma_control_words();
    assert("for (; "@ + c + "; "@ + p + ") {"@ == "for (; "@ + c + "; "@ + p + ") "@ + "{"@);
}

proof fn lemma_inline_for_text(
    i: Seq<char>,
    c: Seq<char>,
    p: Seq<char>,
    b: Seq<char>,
    e: Seq<char>,
)
    ensures
        i + "for (; "@ + c + "; "@ + p + ") { "@ + b + e + "} "@ == i + opening(
            Form::OneLine,
            "for (; "@ + c + "; "@ + p + ") "@,
        ) + (b + e) + "} "@,
{
    broadcast use pieces::lemma_put_together;

    lemma_control_words();
}

/// A counting loop: its first statement, then the loop over its condition, body and step.
pub proof fn law_for_runs_its_body<S>(
    d: nat,
    cx: Cx,
    st: St,
    init: HStmt,
    cond: HExpr,
    step: HStmt,
    body: HBlock,
    first: Step<S>,
    c: Cond<S>,
    p: Advance<S>,
    a: Step<S>,
)
    requires
        first.text == lowered::stmt_c(d, cx, st, init).text,
        c.text == lowered::expr_c(d, cx, lowered::stmt_c(d, cx, st, init).st, cond).text,
        p.text == lowered::step_c(d, cx, lowered::expr_c(d, cx, lowered::stmt_c(d, cx, st, init).st,
            cond).st, step).text,
        a.text == lowered::block_c(
            d,
            cx.nested().counting(analysis::loop_bound(init, cond, step, body)),
            lowered::step_c(d, cx, lowered::expr_c(d, cx, lowered::stmt_c(d, cx, st, init).st,
                cond).st, step).st,
            body,
        ).text,
    ensures
        ({
            let s = HStmt::ForC { init: Box::new(init), cond, step: Box::new(step), body };
            lowered::stmt_c(d, cx, st, s).text == for_loop(Form::Lines(cx.ind), first, c, p, a).text
        }),
        turns_right(c, p.does, a, all_turns(c, p.does, a)),
        forall|s: S, n: nat|
            #[trigger] (for_loop(Form::Lines(cx.ind), first, c, p, a).run)(s, n) == (match (
            first.run)(s, n) {
                Flow::Next(t) => all_turns(c, p.does, a)(t, n),
                r => r,
            }),
{
    reveal(lowered::stmt_c);
    reveal(lowered::expr_c);
    lemma_turns(c, p.does, a);
    lemma_for_text(c.text, p.text, cx.ind);
}

/// The same in an expansion.
pub proof fn law_inline_for_runs_its_body<S>(
    d: nat,
    cx: Cx,
    st: St,
    init: HStmt,
    cond: HExpr,
    step: HStmt,
    body: HBlock,
    first: Step<S>,
    c: Cond<S>,
    p: Advance<S>,
    a: Step<S>,
)
    requires
        first.text == lowered::inline_stmt_c(d, cx, st, init).text,
        c.text == lowered::expr_c(d, cx, lowered::inline_stmt_c(d, cx, st, init).st, cond).text,
        p.text == lowered::step_c(
            d,
            cx,
            lowered::expr_c(d, cx, lowered::inline_stmt_c(d, cx, st, init).st, cond).st,
            step,
        ).text,
        a.text == spliced_block(
            d,
            cx.counting(analysis::loop_bound(init, cond, step, body)),
            lowered::step_c(d, cx, lowered::expr_c(d, cx, lowered::inline_stmt_c(d, cx, st,
                init).st, cond).st, step).st,
            body,
        ),
    ensures
        ({
            let s = HStmt::ForC { init: Box::new(init), cond, step: Box::new(step), body };
            lowered::inline_stmt_c(d, cx, st, s).text == for_loop(Form::OneLine, first, c, p,
                a).text
        }),
{
    reveal(lowered::inline_stmt_c);
    reveal(lowered::expr_c);
    let i0 = lowered::inline_stmt_c(d, cx, st, init);
    let c0 = lowered::expr_c(d, cx, i0.st, cond);
    let p0 = lowered::step_c(d, cx, c0.st, step);
    let cx2 = cx.counting(analysis::loop_bound(init, cond, step, body));
    let b0 = lowered::inline_stmts_c(d, cx2, p0.st, body.stmts, body.stmts@.len());
    lemma_inline_for_text(
        i0.text,
        c0.text,
        p0.text,
        b0.text,
        frames::spliced_end(cx.sym, cx.owns, cx.ind, cx.f, cx.tag->0, body),
    );
}

proof fn lemma_brace_words(ind: Seq<char>)
    ensures
        text::line_c(ind, "{"@) == opening(Form::Lines(ind), ""@),
        text::line_c(ind, "/* unsafe */ {"@) == opening(Form::Lines(ind), "/* unsafe */ "@),
        "{ "@ == opening(Form::OneLine, ""@),
        "/* unsafe */ { "@ == opening(Form::OneLine, "/* unsafe */ "@),
{
    reveal_strlit("");
    reveal_strlit("/* unsafe */ {");
    reveal_strlit("/* unsafe */ ");
    reveal_strlit("{");
    reveal_strlit("/* unsafe */ { ");
    reveal_strlit("{ ");
    assert("/* unsafe */ {"@ =~= "/* unsafe */ "@ + "{"@);
    assert("/* unsafe */ { "@ =~= "/* unsafe */ "@ + "{ "@);
    assert(""@ + "{"@ =~= "{"@);
    assert(""@ + "{ "@ =~= "{ "@);
}

/// A block runs its statements; `break` and `continue` are C's.
pub proof fn law_blocks_run_their_statements<S>(
    d: nat,
    cx: Cx,
    st: St,
    b: HBlock,
    a: Step<S>,
)
    requires
        a.text == lowered::block_c(d, cx.nested(), st, b).text,
    ensures
        lowered::stmt_c(d, cx, st, HStmt::Block(b)).text == braces(Form::Lines(cx.ind), ""@,
            a).text,
        lowered::stmt_c(d, cx, st, HStmt::Unsafe(b)).text == braces(
            Form::Lines(cx.ind),
            "/* unsafe */ "@,
            a,
        ).text,
        lowered::stmt_c(d, cx, st, HStmt::Break).text == text::line_c(cx.ind, "break;"@),
        lowered::stmt_c(d, cx, st, HStmt::Continue).text == text::line_c(cx.ind, "continue;"@),
{
    reveal(lowered::stmt_c);
    lemma_brace_words(cx.ind);
}

/// The same in an expansion.
pub proof fn law_inline_blocks_run_their_statements<S>(
    d: nat,
    cx: Cx,
    st: St,
    b: HBlock,
    a: Step<S>,
)
    requires
        a.text == spliced_block(d, cx, st, b),
    ensures
        lowered::inline_stmt_c(d, cx, st, HStmt::Block(b)).text == braces(Form::OneLine, ""@,
            a).text,
        lowered::inline_stmt_c(d, cx, st, HStmt::Unsafe(b)).text == braces(
            Form::OneLine,
            "/* unsafe */ "@,
            a,
        ).text,
        lowered::inline_stmt_c(d, cx, st, HStmt::Break).text == "break; "@,
        lowered::inline_stmt_c(d, cx, st, HStmt::Continue).text == "continue; "@,
{
    reveal(lowered::inline_stmt_c);
    lemma_brace_words(cx.ind);
    let t = lowered::inline_stmts_c(d, cx, st, b.stmts, b.stmts@.len()).text;
    let end = frames::spliced_end(cx.sym, cx.owns, cx.ind, cx.f, cx.tag->0, b);
    assert("{ "@ + t + end + "} "@ =~= "{ "@ + (t + end) + "} "@);
    assert("/* unsafe */ { "@ + t + end + "} "@ =~= "/* unsafe */ { "@ + (t + end) + "} "@);
}

/// Statements stand one after the other, in their order: whatever precedes the `i`-th, then
/// it, lowered in the state that those before it leave, then the others.
pub proof fn law_statements_in_order(d: nat, cx: Cx, st: St, v: Vec<HStmt>, n: nat, i: int)
    requires
        0 <= i < n <= v@.len(),
    ensures
        ({
            let before = lowered::stmts_c(d, cx, st, v, i as nat);
            exists|rest: Seq<char>|
                lowered::stmts_c(d, cx, st, v, n).text == #[trigger] (before.text + lowered::stmt_c(
                    d,
                    cx,
                    before.st,
                    v@[i],
                ).text + rest)
        }),
        ({
            let before = lowered::inline_stmts_c(d, cx, st, v, i as nat);
            exists|rest: Seq<char>|
                lowered::inline_stmts_c(d, cx, st, v, n).text == #[trigger] (before.text
                    + lowered::inline_stmt_c(
                    d,
                    cx,
                    before.st,
                    v@[i],
                ).text + rest)
        }),
        lowered::stmts_c(d, cx, st, v, 0) == (Out { text: ""@, st }),
        lowered::inline_stmts_c(d, cx, st, v, 0) == (Out { text: ""@, st }),
    decreases n,
{
    reveal(lowered::stmt_c);
    reveal(lowered::inline_stmt_c);
    let b = lowered::stmts_c(d, cx, st, v, i as nat);
    let s = lowered::stmt_c(d, cx, b.st, v@[i]).text;
    let ib = lowered::inline_stmts_c(d, cx, st, v, i as nat);
    let is = lowered::inline_stmt_c(d, cx, ib.st, v@[i]).text;
    if i == n - 1 {
        let none = Seq::<char>::empty();
        assert(b.text + s =~= b.text + s + none);
        assert(ib.text + is =~= ib.text + is + none);
    } else {
        law_statements_in_order(d, cx, st, v, (n - 1) as nat, i);
        let p = lowered::stmts_c(d, cx, st, v, (n - 1) as nat);
        let l = lowered::stmt_c(d, cx, p.st, v@[n - 1]).text;
        let rest = choose|rest: Seq<char>| p.text == #[trigger] (b.text + s + rest);
        assert(p.text + l =~= b.text + s + (rest + l));
        let ip = lowered::inline_stmts_c(d, cx, st, v, (n - 1) as nat);
        let il = lowered::inline_stmt_c(d, cx, ip.st, v@[n - 1]).text;
        let irest = choose|rest: Seq<char>| ip.text == #[trigger] (ib.text + is + rest);
        assert(ip.text + il =~= ib.text + is + (irest + il));
    }
}

/// An expression as a statement is computed and its value dropped.
pub proof fn law_expression_statements(d: nat, cx: Cx, st: St, e: HExpr)
    ensures
        lowered::stmt_c(d, cx, st, HStmt::ExprStmt(e)).text == text::line_c(
            cx.ind,
            "(void)("@ + lowered::expr_c(d, cx, st, e).text + ");"@,
        ),
        lowered::inline_stmt_c(d, cx, st, HStmt::ExprStmt(e)).text == "(void)("@
            + lowered::expr_c(d, cx, st, e).text
            + "); "@,
        lowered::stmt_c(d, cx, st, HStmt::ExprStmt(e)).st == lowered::expr_c(d, cx, st, e).st,
        lowered::inline_stmt_c(d, cx, st, HStmt::ExprStmt(e)).st == lowered::expr_c(d, cx, st,
            e).st,
{
    reveal(lowered::stmt_c);
    reveal(lowered::inline_stmt_c);
    reveal(lowered::expr_c);
}

/// A return in an expansion first stores its value in the variable that is the value of the
/// expansion, which stands last in it.
pub proof fn law_inline_return_is_the_value(
    d: nat,
    cx: Cx,
    st: St,
    e: HExpr,
    heap_drops: Vec<LocalId>,
)
    requires
        cx.wanted,
    ensures
        text::begins(
            lowered::inline_stmt_c(d, cx, st, HStmt::Return { value: Some(e), heap_drops }).text,
            "__r_"@ + cx.tag->0 + " = ("@ + lowered::expr_c(d, cx, st, e).text + "); "@,
        ),
{
    broadcast use pieces::lemma_put_together;

    reveal(lowered::inline_stmt_c);
    reveal(lowered::place_c);
    reveal(lowered::expr_c);
    let v = lowered::expr_c(d, cx, st, e);
    let first = "__r_"@ + cx.tag->0 + " = ("@ + v.text + "); "@;
    let text = lowered::inline_stmt_c(d, cx, st, HStmt::Return { value: Some(e), heap_drops }).text;
    let drops = frames::spliced_drops(
        cx.sym,
        cx.owns,
        cx.ind,
        cx.f,
        cx.tag->0,
        heap_drops@,
        cx.f.body.heap_to_free@,
        heap_drops@.len(),
    );
    let jump = drops + "goto end_"@ + cx.tag->0 + "; "@;
    let rest = if validity::clears_source(e) {
        lowered::cleared_c(cx.sym, e.ty, lowered::place_c(d, cx, v.st, e).text) + " "@ + jump
    } else {
        jump
    };
    assert(text == first + rest);
    assert(text.take(first.len() as int) =~= first);
}

/// The whole of an expansion: the parameters with the arguments in their order, the other
/// locals, the statements of the body, the label, the releases, and last the value.
pub proof fn law_expansion_ends_with_its_value(
    d: nat,
    cx: Cx,
    st: St,
    callee: FuncId,
    args: Vec<HExpr>,
    ty: HType,
    at_i: int,
)
    requires
        d > 0,
        cx.sym.func_from(callee, 0) == Some(at_i),
    ensures
        ({
            let g = cx.sym.funcs@[at_i];
            let tag = lowered::expansion_tag(g, st.seq + 1);
            let text = lowered::expansion_c(d, cx, st, callee, args, ty).text;
            &&& ty is Unit ==> exists|head: Seq<char>| text == #[trigger] (head + "MAKA_UNIT; })"@)
            &&& !(ty is Unit) ==> exists|head: Seq<char>|
                text == #[trigger] (head + ("__r_"@ + tag + "; })"@))
        }),
        cx.sym.funcs@[at_i].id == callee,
{
    reveal(lowered::expansion_c);
    lemma_found(cx.sym, callee, 0);
    let g = cx.sym.funcs@[at_i];
    let st2 = St { seq: st.seq + 1, ..st };
    let tag = lowered::expansion_tag(g, st2.seq);
    let a = lowered::exprs_c(d, cx, st2, args, 0, args@.len());
    let b = lowered::inline_stmts_c(
        (d - 1) as nat,
        cx.inside(g, tag, !(ty is Unit)),
        a.st,
        g.body.stmts,
        g.body.stmts@.len(),
    );
    let ids = g.body.heap_to_free@;
    let head = "__extension__ ({ "@ + frames::spliced_params(cx.sym, g, tag, a.texts,
        g.params@.len()) + (
    if ty is Unit { ""@ } else { ctypes::ty_c(cx.sym, ty) + " __r_"@ + tag + " = {0}; "@ })
        + frames::spliced_locals(cx.sym, g, tag, g.locals@.len()) + "do { "@ + b.text
        + "} while (0); end_"@ + tag + ": ; "@ + frames::spliced_drops(
        cx.sym,
        cx.owns,
        cx.ind,
        g,
        tag,
        ids,
        Seq::empty(),
        ids.len(),
    );
    let mid = if ty is Unit { "MAKA_UNIT; "@ } else { "__r_"@ + tag + "; "@ };
    let text = lowered::expansion_c(d, cx, st, callee, args, ty).text;
    assert(text == head + mid + "})"@);
    lemma_last_words(head, tag);
    if ty is Unit {
        assert(text == head + "MAKA_UNIT; })"@);
    } else {
        assert(text == head + ("__r_"@ + tag + "; })"@));
    }
}

proof fn lemma_last_words(head: Seq<char>, tag: Seq<char>)
    ensures
        head + "MAKA_UNIT; "@ + "})"@ == head + "MAKA_UNIT; })"@,
        head + ("__r_"@ + tag + "; "@) + "})"@ == head + ("__r_"@ + tag + "; })"@),
{
    reveal_strlit("MAKA_UNIT; })");
    reveal_strlit("MAKA_UNIT; ");
    reveal_strlit("})");
    reveal_strlit("; })");
    reveal_strlit("; ");
    assert("MAKA_UNIT; })"@ =~= "MAKA_UNIT; "@ + "})"@);
    assert("; })"@ =~= "; "@ + "})"@);
    assert(head + "MAKA_UNIT; "@ + "})"@ =~= head + ("MAKA_UNIT; "@ + "})"@));
    assert(head + ("__r_"@ + tag + "; "@) + "})"@ =~= head + ("__r_"@ + tag + ("; "@ + "})"@)));
}

proof fn lemma_found(sym: SymTab, id: FuncId, from: nat)
    ensures
        sym.func_from(id, from) matches Some(i) ==> from <= i < sym.funcs@.len()
            && sym.funcs@[i].id == id,
    decreases sym.funcs@.len() - from,
{
    if from < sym.funcs@.len() && sym.funcs@[from as int].id != id {
        lemma_found(sym, id, from + 1);
    }
}

/// Each parameter of an expansion starts with the argument in its position.
pub proof fn law_expansion_binds_its_arguments(
    sym: SymTab,
    g: HFunc,
    tag: Seq<char>,
    args: Seq<Seq<char>>,
    n: nat,
    i: int,
)
    requires
        0 <= i < n <= g.params@.len(),
        i < args.len(),
    ensures
        text::has_part(
            frames::spliced_params(sym, g, tag, args, n),
            ctypes::ty_c(sym, g.locals@[g.params@[i].0 as int].ty) + " "@
                + ctypes::inline_local_c(g.params@[i], tag)
                + " = "@ + args[i] + "; "@,
        ),
    decreases n,
{
    let before = frames::spliced_params(sym, g, tag, args, (n - 1) as nat);
    let id = g.params@[n - 1];
    let value = if n - 1 < args.len() { args[n - 1] } else { "0"@ };
    let last = ctypes::ty_c(sym, g.locals@[id.0 as int].ty) + " "@ + ctypes::inline_local_c(id, tag)
        + " = "@ + value
        + "; "@;
    assert(frames::spliced_params(sym, g, tag, args, n) == before + last);
    if i == n - 1 {
        text::lemma_part_last(before, last);
    } else {
        law_expansion_binds_its_arguments(sym, g, tag, args, (n - 1) as nat, i);
        text::lemma_part_kept(
            before,
            last,
            ctypes::ty_c(sym, g.locals@[g.params@[i].0 as int].ty) + " "@
                + ctypes::inline_local_c(g.params@[i], tag)
                + " = "@ + args[i] + "; "@,
        );
    }
}

} // verus!
