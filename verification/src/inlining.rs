//! Writing inline calls: the callee's body inside a statement expression.
use vstd::prelude::*;

use crate::analysis;
use crate::analysis::{BceBound, known_counter};
use crate::context::{Lowering, Out, State};
use crate::ctypes::{c_type, inline_local_name};
use crate::drops::{drop_ty_owns, emit_field_drop};
use crate::frames::{splice_drops, splice_end, splice_locals, splice_params};
use crate::hir::{FuncId, HExpr, HExprKind, HFunc, HStmt, HType, LocalId};
use crate::lowered;
use crate::operators::assign_op_c;
use crate::statements::{clear_place, is_fresh, is_owner, leaves_null, through};
use crate::text::{cat2, cat3, cat4, cat5, cat6, cat9, dec_u64, own};
use crate::validity;

verus! {

impl<'a> Lowering<'a> {
    /// Writes an inline call.
    pub(crate) fn emit_inline_expansion(
        &self,
        st: &mut State,
        Ghost(d): Ghost<nat>,
        callee: FuncId,
        args: &Vec<HExpr>,
        ty: &HType,
    ) -> (r: String)
        requires
            self.wf(),
            old(st).wf(),
            match self.sym.func_from(callee, 0) {
                Some(i) => validity::exprs_ok(
                    d,
                    *self.sym,
                    *self.f,
                    self.cx().spliced(),
                    *args,
                    0,
                    args@.len(),
                ) && d > 0
                    && validity::expansion_ok((d - 1) as nat, *self.sym, self.sym.funcs@[i], *ty),
                None => true,
            },
        ensures
            final(st).wf(),
            (Out { text: r@, st: final(st).st() }) == lowered::expansion_c(
                d,
                self.cx(),
                old(st).st(),
                callee,
                *args,
                *ty,
            ),
        decreases d, args, args@.len() + 1,
    {
        proof {
            reveal(lowered::expansion_c);
            reveal(lowered::inline_stmt_c);
            reveal(lowered::expr_c);
        }
        let g: &HFunc = match self.sym.func_by_id(callee) {
            Some(g) => g,
            None => {
                return own("MAKA_UNIT");
            },
        };
        st.expand();
        let tag: String = cat4("ix", &dec_u64(g.id.0 as u64), "_", &dec_u64(st.seq as u64));
        let wanted: bool = match ty {
            HType::Unit => false,
            _ => true,
        };
        let a: Vec<String> = self.emit_exprs(st, Ghost(d), args, 0, args.len());
        let params: String = splice_params(self.sym, g, &tag, &a);
        let result: String = if wanted {
            cat4(&c_type(self.sym, ty), " __r_", &tag, " = {0}; ")
        } else {
            own("")
        };
        let locals: String = splice_locals(self.sym, g, &tag);
        let none: Vec<(u32, BceBound)> = Vec::new();
        let inner: Lowering = self.splice(g, &tag, wanted, &none);
        let body: String = inner.emit_inline_stmts(
            st,
            Ghost((d - 1) as nat),
            &tag,
            &g.body.stmts,
        );
        let kept: Vec<LocalId> = Vec::new();
        assert(kept@ =~= Seq::empty());
        let frees: String = splice_drops(
            self.sym,
            self.owns,
            self.ind,
            g,
            &tag,
            &g.body.heap_to_free,
            &kept,
        );
        let yielded: String = if wanted {
            cat3("__r_", &tag, "; ")
        } else {
            own("MAKA_UNIT; ")
        };
        let mut out: String = cat6("__extension__ ({ ", &params, &result, &locals, "do { ", &body);
        out.append("} while (0); end_");
        out.append(&tag);
        out.append(": ; ");
        out.append(&frees);
        out.append(&yielded);
        out.append("})");
        out
    }

    /// Writes statements of an inline function.
    pub(crate) fn emit_inline_stmts(
        &self,
        st: &mut State,
        Ghost(d): Ghost<nat>,
        tag: &str,
        v: &Vec<HStmt>,
    ) -> (r: String)
        requires
            self.wf(),
            old(st).wf(),
            self.cx().tag == Some(tag@),
            validity::stmts_ok(d, *self.sym, *self.f, true, *v, v@.len()),
        ensures
            final(st).wf(),
            (Out { text: r@, st: final(st).st() }) == lowered::inline_stmts_c(
                d,
                self.cx(),
                old(st).st(),
                *v,
                v@.len(),
            ),
        decreases d, v, v@.len(),
    {
        let mut out: String = own("");
        let mut i: usize = 0;
        while i < v.len()
            invariant
                i <= v@.len(),
                self.wf(),
                st.wf(),
                self.cx().tag == Some(tag@),
                validity::stmts_ok(d, *self.sym, *self.f, true, *v, v@.len()),
                (Out { text: out@, st: st.st() }) == lowered::inline_stmts_c(
                    d,
                    self.cx(),
                    old(st).st(),
                    *v,
                    i as nat,
                ),
            decreases v@.len() - i,
        {
            proof {
                reveal(lowered::inline_stmt_c);
                validity::lemma_stmts_ok(d, *self.sym, *self.f, true, *v, v@.len(), i as int);
            }
            let s: String = self.emit_inline_stmt(st, Ghost(d), tag, &v[i]);
            out.append(&s);
            i += 1;
        }
        out
    }

    /// Writes a statement of an inline function.
    #[verifier::spinoff_prover]
    #[verifier::rlimit(50)]
    fn emit_inline_stmt(
        &self,
        st: &mut State,
        Ghost(d): Ghost<nat>,
        tag: &str,
        s: &HStmt,
    ) -> (r: String)
        requires
            self.wf(),
            old(st).wf(),
            self.cx().tag == Some(tag@),
            validity::inline_stmt_ok(d, *self.sym, *self.f, *s),
        ensures
            final(st).wf(),
            (Out { text: r@, st: final(st).st() }) == lowered::inline_stmt_c(
                d,
                self.cx(),
                old(st).st(),
                *s,
            ),
        decreases d, s, 2nat,
    {
        proof {
            reveal(lowered::inline_stmt_c);
            reveal(validity::inline_stmt_ok);
            reveal(lowered::place_c);
            reveal(lowered::expr_c);
            reveal(validity::expr_ok);
        }
        match s {
            HStmt::Let { local, init } => {
                let n: String = inline_local_name(*local, tag);
                let v: String = self.emit_expr(st, Ghost(d), init);
                let set: String = cat4(&n, " = ", &v, "; ");
                let slot: &HType = &self.f.locals[local.0 as usize].ty;
                let text: String = match slot {
                    HType::Heap { inner } => {
                        let is_vec: bool = match &**inner {
                            HType::Vec { .. } => true,
                            _ => false,
                        };
                        if is_vec || is_owner(self.f, slot, init) {
                            set
                        } else {
                            let c: String = c_type(self.sym, inner);
                            cat9(
                                &n,
                                " = (",
                                &c,
                                "*)malloc(sizeof(",
                                &c,
                                ")); *",
                                &n,
                                " = (",
                                &cat2(&v, "); "),
                            )
                        }
                    },
                    _ => set,
                };
                if leaves_null(init) {
                    let m: String = self.emit_place(st, Ghost(d), init);
                    cat3(&text, &clear_place(self.sym, &init.ty, &m), " ")
                } else {
                    text
                }
            },
            HStmt::Assign { op, place, value } => {
                let p: String = self.emit_place(st, Ghost(d), place);
                let v: String = self.emit_expr(st, Ghost(d), value);
                let set: String = cat6(&p, " ", assign_op_c(*op), " ", &v, "; ");
                let text: String = if through(self.f, place) {
                    match &place.kind {
                        HExprKind::Unwrap { .. } => set,
                        _ => cat2("*", &set),
                    }
                } else if is_fresh(*op, place, value) && drop_ty_owns(
                    self.sym,
                    self.owns,
                    &place.ty,
                ) {
                    cat2(
                        &emit_field_drop(self.sym, self.owns, self.ind, &p, &place.ty, 0),
                        &set,
                    )
                } else {
                    set
                };
                if leaves_null(value) {
                    let m: String = self.emit_place(st, Ghost(d), value);
                    cat3(&text, &clear_place(self.sym, &value.ty, &m), " ")
                } else {
                    text
                }
            },
            HStmt::ExprStmt(e) => {
                let v: String = self.emit_expr(st, Ghost(d), e);
                cat3("(void)(", &v, "); ")
            },
            HStmt::Return { value, heap_drops } => {
                let drops: String = splice_drops(
                    self.sym,
                    self.owns,
                    self.ind,
                    self.f,
                    tag,
                    heap_drops,
                    &self.f.body.heap_to_free,
                );
                let jump: String = cat4(&drops, "goto end_", tag, "; ");
                match value {
                    Some(e) => {
                        let v: String = self.emit_expr(st, Ghost(d), e);
                        let head: String = if self.wanted {
                            cat3("__r_", tag, " = (")
                        } else {
                            own("(void)(")
                        };
                        if self.wanted && leaves_null(e) {
                            let m: String = self.emit_place(st, Ghost(d), e);
                            let clear: String = cat2(&clear_place(self.sym, &e.ty, &m), " ");
                            cat5(&head, &v, "); ", &clear, &jump)
                        } else {
                            cat4(&head, &v, "); ", &jump)
                        }
                    },
                    None => jump,
                }
            },
            HStmt::Propagate { value } => match value {
                Some(e) => {
                    let v: String = self.emit_expr(st, Ghost(d), e);
                    cat3("return ", &v, "; ")
                },
                None => own("return; "),
            },
            HStmt::If { cond, then_b, else_b } => {
                let c: String = self.emit_expr(st, Ghost(d), cond);
                let t: String = self.emit_inline_stmts(st, Ghost(d), tag, &then_b.stmts);
                let end: String = splice_end(self.sym, self.owns, self.ind, self.f, tag, then_b);
                let head: String = cat6("if (", &c, ") { ", &t, &end, "} ");
                match else_b {
                    Some(b) => {
                        let e: String = self.emit_inline_stmts(
                            st,
                            Ghost(d),
                            tag,
                            &b.stmts,
                        );
                        let end2: String = splice_end(
                            self.sym,
                            self.owns,
                            self.ind,
                            self.f,
                            tag,
                            b,
                        );
                        cat5(&head, "else { ", &e, &end2, "} ")
                    },
                    None => head,
                }
            },
            HStmt::While { cond, body } => {
                let c: String = self.emit_expr(st, Ghost(d), cond);
                let b: String = self.emit_inline_stmts(st, Ghost(d), tag, &body.stmts);
                let end: String = splice_end(self.sym, self.owns, self.ind, self.f, tag, body);
                cat6("while (", &c, ") { ", &b, &end, "} ")
            },
            HStmt::Block(b) => {
                let o: String = self.emit_inline_stmts(st, Ghost(d), tag, &b.stmts);
                let end: String = splice_end(self.sym, self.owns, self.ind, self.f, tag, b);
                cat4("{ ", &o, &end, "} ")
            },
            HStmt::Unsafe(b) => {
                let o: String = self.emit_inline_stmts(st, Ghost(d), tag, &b.stmts);
                let end: String = splice_end(self.sym, self.owns, self.ind, self.f, tag, b);
                cat4("/* unsafe */ { ", &o, &end, "} ")
            },
            HStmt::Break => own("break; "),
            HStmt::Continue => own("continue; "),
            HStmt::ForC { init, cond, step, body } => {
                let i: String = self.emit_inline_stmt(st, Ghost(d), tag, init);
                let c: String = self.emit_expr(st, Ghost(d), cond);
                let p: String = self.emit_step_expr(st, Ghost(d), step);
                let counters: Vec<(u32, BceBound)> = self.counters(
                    known_counter(init, cond, step, body),
                );
                let counted: Lowering = self.within(&counters);
                assert(counted.cx() == self.cx().counting(
                    analysis::loop_bound(**init, *cond, **step, *body),
                ));
                let b: String = counted.emit_inline_stmts(
                    st,
                    Ghost(d),
                    tag,
                    &body.stmts,
                );
                let end: String = splice_end(self.sym, self.owns, self.ind, self.f, tag, body);
                cat9(&i, "for (; ", &c, "; ", &p, ") { ", &b, &end, "} ")
            },
            HStmt::ForEach { .. } => own("/* for-each in inline not supported */ "),
        }
    }
}

} // verus!
