//! Writing statements, blocks and loops.
use vstd::prelude::*;

use crate::analysis;
use crate::analysis::{
    BceBound, block_mutates_local, expr_contains_local, keeps_source, known_counter,
    move_out_owned_place, place_root_local,
};
use crate::context::{Lowering, Out, State};
use crate::ctypes;
use crate::ctypes::{c_decl, c_type, local_name};
use crate::drops::{drop_ty_owns, emit_field_drop};
use crate::frames;
use crate::frames::{collapse, release, return_drops, source_decl, source_elems, source_len};
use crate::hir::{
    HAssignOp, HBlock, HExpr, HExprKind, HFunc, HStmt, HType, LocalId, LocalInfo, SymTab,
};
use crate::lowered;
use crate::operators::assign_op_c;
use crate::patterns;
use crate::text::{cat2, cat3, cat4, cat5, cat6, cat7, cat8, deeper, line, own};
use crate::validity;

verus! {

/// Tests whether a move out of the place clears it.
pub fn leaves_null(src: &HExpr) -> (r: bool)
    ensures
        r == validity::clears_source(*src),
{
    let owning: bool = match &src.ty {
        HType::OwnPtr { .. } | HType::Heap { .. } => true,
        _ => false,
    };
    let part: bool = match &src.kind {
        HExprKind::Field { .. } | HExprKind::Index { .. } => true,
        _ => false,
    };
    owning && part && move_out_owned_place(src)
}

/// Tests whether at least as many owning pointers lead from a value of type `a` to what they
/// own in the end as from one of type `b`.
fn reaches(a: &HType, b: &HType) -> (r: bool)
    ensures
        r == (validity::owner_depth(*a) >= validity::owner_depth(*b)),
    decreases b,
{
    match (a, b) {
        (_, HType::Heap { inner: y }) => match a {
            HType::Heap { inner: x } | HType::OwnPtr { inner: x, .. } => reaches(x, y),
            _ => false,
        },
        (_, HType::OwnPtr { inner: y, .. }) => match a {
            HType::Heap { inner: x } | HType::OwnPtr { inner: x, .. } => reaches(x, y),
            _ => false,
        },
        _ => true,
    }
}

/// Tests whether an assignment is written through a pointer that the place holds.
pub fn through(f: &HFunc, place: &HExpr) -> (r: bool)
    requires
        validity::local_known(*f, *place),
    ensures
        r == validity::through_pointer(*f, *place),
{
    match &place.kind {
        HExprKind::Local(id) => match &f.locals[id.0 as usize].ty {
            HType::Heap { inner } => match &**inner {
                HType::Vec { .. } => false,
                _ => true,
            },
            HType::Ref { mutable, .. } => *mutable,
            _ => false,
        },
        HExprKind::Unwrap { .. } => true,
        _ => false,
    }
}

/// Writes the assignment that leaves nothing to release in a place of the type.
pub fn clear_place(sym: &SymTab, t: &HType, place: &str) -> (r: String)
    requires
        match *t {
            HType::Heap { inner } => *inner is Vec ==> ctypes::ty_ok(*sym, *inner),
            _ => true,
        },
    ensures
        r@ == lowered::cleared_c(*sym, *t, place@),
{
    match t {
        HType::Heap { inner } => match &**inner {
            HType::Vec { .. } => cat4(
                place,
                " = (",
                &c_type(sym, inner),
                "){ .data = NULL, .len = 0, .cap = 0 };",
            ),
            _ => cat2(place, " = NULL;"),
        },
        _ => cat2(place, " = NULL;"),
    }
}

/// Tests whether a value becomes what an owning local of the type holds.
pub fn is_owner(f: &HFunc, slot: &HType, value: &HExpr) -> (r: bool)
    requires
        validity::local_known(*f, *value),
    ensures
        r == validity::takes_over(*f, *slot, *value),
{
    let made: bool = match &value.kind {
        HExprKind::Local(src) => match &f.locals[src.0 as usize].ty {
            HType::Heap { .. } => true,
            _ => false,
        },
        HExprKind::HeapAlloc(_) => true,
        HExprKind::Call { .. } => match &value.ty {
            HType::Heap { .. } => true,
            _ => false,
        },
        _ => false,
    };
    let owner: bool = match &value.ty {
        HType::Heap { .. } | HType::OwnPtr { .. } => true,
        _ => false,
    };
    made || (owner && reaches(&value.ty, slot))
}

/// Tests whether an assignment overwrites a place whose old value nothing on the right reads.
pub fn is_fresh(op: HAssignOp, place: &HExpr, value: &HExpr) -> (r: bool)
    ensures
        r == validity::overwrites(op, *place, *value),
{
    let plain: bool = match op {
        HAssignOp::Assign => true,
        _ => false,
    };
    plain && (match place_root_local(place) {
        Some(root) => !expr_contains_local(value, root),
        None => false,
    })
}

impl<'a> Lowering<'a> {
    /// Writes statements one after the other.
    pub(crate) fn emit_stmts(
        &self,
        st: &mut State,
        Ghost(d): Ghost<nat>,
        v: &Vec<HStmt>,
    ) -> (r: String)
        requires
            self.wf(),
            old(st).wf(),
            !self.cx().spliced(),
            validity::stmts_ok(d, *self.sym, *self.f, false, *v, v@.len()),
        ensures
            final(st).wf(),
            (Out { text: r@, st: final(st).st() }) == lowered::stmts_c(
                d,
                self.cx(),
                old(st).st(),
                *v,
                v@.len(),
            ),
        decreases d, v, v@.len(),
    {
        proof {
            reveal(lowered::stmt_c);
        }
        let mut out: String = own("");
        let mut i: usize = 0;
        while i < v.len()
            invariant
                i <= v@.len(),
                self.wf(),
                st.wf(),
                !self.cx().spliced(),
                validity::stmts_ok(d, *self.sym, *self.f, false, *v, v@.len()),
                (Out { text: out@, st: st.st() }) == lowered::stmts_c(
                    d,
                    self.cx(),
                    old(st).st(),
                    *v,
                    i as nat,
                ),
            decreases v@.len() - i,
        {
            proof {
                reveal(lowered::stmt_c);
                validity::lemma_stmts_ok(d, *self.sym, *self.f, false, *v, v@.len(), i as int);
            }
            let s: String = self.emit_stmt(st, Ghost(d), &v[i]);
            out.append(&s);
            i += 1;
        }
        out
    }

    /// Writes a block: its statements, then what its end clears and releases.
    pub(crate) fn emit_block(&self, st: &mut State, Ghost(d): Ghost<nat>, b: &HBlock) -> (r: String)
        requires
            self.wf(),
            old(st).wf(),
            !self.cx().spliced(),
            validity::block_ok(d, *self.sym, *self.f, *b),
        ensures
            final(st).wf(),
            (Out { text: r@, st: final(st).st() }) == lowered::block_c(d, self.cx(), old(st).st(), *b),
        decreases d, b, 1nat,
    {
        let s: String = self.emit_stmts(st, Ghost(d), &b.stmts);
        cat3(
            &s,
            &collapse(self.f, self.ind, &b.ptr_nulls),
            &release(self.sym, self.owns, self.f, self.ind, &b.heap_to_free),
        )
    }

    /// Writes the statement that clears the place a value was moved out of.
    fn emit_move_out_null(&self, st: &mut State, Ghost(d): Ghost<nat>, src: &HExpr) -> (r: String)
        requires
            self.wf(),
            old(st).wf(),
            !self.cx().spliced(),
            validity::expr_ok(d, *self.sym, *self.f, false, *src),
            validity::clear_ok(*self.sym, *src),
        ensures
            final(st).wf(),
            (Out { text: r@, st: final(st).st() }) == lowered::move_out_c(d, self.cx(), old(st).st(), *src),
        decreases d, src, 4nat,
    {
        proof {
            reveal(lowered::move_out_c);
            reveal(lowered::place_c);
        }
        if leaves_null(src) {
            let p: String = self.emit_place(st, Ghost(d), src);
            line(self.ind, &clear_place(self.sym, &src.ty, &p))
        } else {
            own("")
        }
    }

    /// Writes a declaration.
    fn emit_let(
        &self,
        st: &mut State,
        Ghost(d): Ghost<nat>,
        id: LocalId,
        init: &HExpr,
    ) -> (r: String)
        requires
            self.wf(),
            old(st).wf(),
            !self.cx().spliced(),
            patterns::typed_local_ok(*self.sym, *self.f, id),
            validity::expr_ok(d, *self.sym, *self.f, false, *init),
            validity::clear_ok(*self.sym, *init),
        ensures
            final(st).wf(),
            (Out { text: r@, st: final(st).st() }) == lowered::let_c(
                d,
                self.cx(),
                old(st).st(),
                id,
                *init,
            ),
        decreases d, init, 5nat,
    {
        proof {
            reveal(lowered::let_c);
            reveal(lowered::expr_c);
            reveal(lowered::move_out_c);
        }
        let li: &LocalInfo = &self.f.locals[id.0 as usize];
        let name: String = local_name(id, &li.name);
        match &li.ty {
            HType::Heap { inner } => {
                let is_vec: bool = match &**inner {
                    HType::Vec { .. } => true,
                    _ => false,
                };
                assert(ctypes::ty_ok(*self.sym, **inner));
                if is_vec {
                    let v: String = self.emit_expr(st, Ghost(d), init);
                    let text: String = cat5(&c_type(self.sym, inner), " ", &name, " = ", &v);
                    let m: String = self.emit_move_out_null(st, Ghost(d), init);
                    return cat2(&line(self.ind, &cat2(&text, ";")), &m);
                }
                let ptr: String = c_type(self.sym, &li.ty);
                match &init.kind {
                    HExprKind::Local(src) => {
                        assert(src.0 < self.f.locals@.len()) by {
                            reveal(validity::expr_ok);
                        }
                        let from: &LocalInfo = &self.f.locals[src.0 as usize];
                        let heap: bool = match &from.ty {
                            HType::Heap { .. } => true,
                            _ => false,
                        };
                        if heap {
                            let text: String = cat6(
                                &ptr,
                                " ",
                                &name,
                                " = ",
                                &local_name(*src, &from.name),
                                "; /* moved */",
                            );
                            return line(self.ind, &text);
                        }
                    },
                    _ => {},
                }
                let v: String = self.emit_expr(st, Ghost(d), init);
                let m: String = self.emit_move_out_null(st, Ghost(d), init);
                if is_owner(self.f, &li.ty, init) {
                    cat2(&line(self.ind, &cat6(&ptr, " ", &name, " = ", &v, ";")), &m)
                } else {
                    let cell: String = cat8(
                        &ptr,
                        " ",
                        &name,
                        " = (",
                        &ptr,
                        ")malloc(sizeof(",
                        &c_type(self.sym, inner),
                        "));",
                    );
                    cat3(
                        &line(self.ind, &cell),
                        &line(self.ind, &cat5("*", &name, " = ", &v, ";")),
                        &m,
                    )
                }
            },
            HType::Array { .. } => {
                let v: String = self.emit_expr(st, Ghost(d), init);
                line(self.ind, &cat4(&c_decl(self.sym, &li.ty, &name), " = ", &v, ";"))
            },
            _ => {
                let v: String = self.emit_expr(st, Ghost(d), init);
                let prefix: &str = if li.thread_local { "static __thread " } else { "" };
                let decl: String = c_decl(self.sym, &li.ty, &name);
                let first: String = line(self.ind, &cat5(prefix, &decl, " = ", &v, ";"));
                let m: String = self.emit_move_out_null(st, Ghost(d), init);
                cat2(&first, &m)
            },
        }
    }

    /// Writes an assignment.
    fn emit_assign(
        &self,
        st: &mut State,
        Ghost(d): Ghost<nat>,
        Ghost(s): Ghost<HStmt>,
        op: HAssignOp,
        place: &HExpr,
        value: &HExpr,
    ) -> (r: String)
        requires
            self.wf(),
            old(st).wf(),
            !self.cx().spliced(),
            s == (HStmt::Assign { op, place: *place, value: *value }),
            validity::stmt_ok(d, *self.sym, *self.f, s),
        ensures
            final(st).wf(),
            (Out { text: r@, st: final(st).st() }) == lowered::assign_c(d, self.cx(), old(st).st(), s),
        decreases d, s, 0nat,
    {
        proof {
            reveal(lowered::assign_c);
            reveal(lowered::place_c);
            reveal(lowered::expr_c);
            reveal(lowered::move_out_c);
            reveal(validity::stmt_ok);
            reveal(validity::expr_ok);
            assert(validity::expr_ok(d, *self.sym, *self.f, false, *place));
        }
        let l: String = self.emit_place(st, Ghost(d), place);
        let r: String = self.emit_expr(st, Ghost(d), value);
        match &place.kind {
            HExprKind::Local(_) => if through(self.f, place) {
                let m: String = self.emit_move_out_null(st, Ghost(d), value);
                let text: String = cat7("*", &l, " ", assign_op_c(op), " ", &r, ";");
                return cat2(&line(self.ind, &text), &m);
            },
            HExprKind::Unwrap { expr, .. } => {
                let i: String = self.emit_expr(st, Ghost(d), expr);
                let m: String = self.emit_move_out_null(st, Ghost(d), value);
                let text: String = cat7("*(", &i, ") ", assign_op_c(op), " ", &r, ";");
                return cat2(&line(self.ind, &text), &m);
            },
            _ => {},
        }
        let drop: String = if is_fresh(op, place, value) && drop_ty_owns(
            self.sym,
            self.owns,
            &place.ty,
        ) {
            emit_field_drop(self.sym, self.owns, self.ind, &l, &place.ty, 0)
        } else {
            own("")
        };
        let set: String = line(self.ind, &cat6(&l, " ", assign_op_c(op), " ", &r, ";"));
        let m: String = self.emit_move_out_null(st, Ghost(d), value);
        cat3(&drop, &set, &m)
    }

    /// Writes the step of a loop.
    pub(crate) fn emit_step_expr(
        &self,
        st: &mut State,
        Ghost(d): Ghost<nat>,
        step: &HStmt,
    ) -> (r: String)
        requires
            self.wf(),
            old(st).wf(),
            validity::step_ok(d, *self.sym, *self.f, self.cx().spliced(), *step),
        ensures
            final(st).wf(),
            (Out { text: r@, st: final(st).st() }) == lowered::step_c(d, self.cx(), old(st).st(), *step),
        decreases d, step, 1nat,
    {
        proof {
            reveal(lowered::place_c);
            reveal(lowered::expr_c);
            reveal(validity::expr_ok);
        }
        match step {
            HStmt::Assign { op, place, value } => {
                let p: String = self.emit_place(st, Ghost(d), place);
                let v: String = self.emit_expr(st, Ghost(d), value);
                cat5(&p, " ", assign_op_c(*op), " ", &v)
            },
            _ => own("(void)0"),
        }
    }

    /// Writes a return.
    fn emit_return(
        &self,
        st: &mut State,
        Ghost(d): Ghost<nat>,
        value: &Option<HExpr>,
        drops: &Vec<LocalId>,
    ) -> (r: String)
        requires
            self.wf(),
            old(st).wf(),
            !self.cx().spliced(),
            frames::releases_ok(*self.sym, *self.f, drops@),
            match *value {
                Some(e) => validity::expr_ok(d, *self.sym, *self.f, false, e) && validity::clear_ok(*self.sym, e) && (
                e.ty is Unit || ctypes::ty_ok(*self.sym, e.ty)),
                None => true,
            },
        ensures
            final(st).wf(),
            (Out { text: r@, st: final(st).st() }) == lowered::return_c(
                d,
                self.cx(),
                old(st).st(),
                *value,
                drops@,
            ),
        decreases d, value, 3nat,
    {
        proof {
            reveal(lowered::return_c);
            reveal(lowered::expr_c);
            reveal(lowered::move_out_c);
        }
        match value {
            Some(e) => {
                let unit: bool = match &e.ty {
                    HType::Unit => true,
                    _ => false,
                };
                if unit {
                    let s: String = self.emit_expr(st, Ghost(d), e);
                    cat3(
                        &line(self.ind, &cat3("(void)(", &s, ");")),
                        &return_drops(self.sym, self.owns, self.f, self.ind, drops),
                        &line(self.ind, "return;"),
                    )
                } else {
                    let ind2: String = deeper(self.ind);
                    let inner: Lowering = self.at(&ind2);
                    let s: String = inner.emit_expr(st, Ghost(d), e);
                    let decl: String = c_decl(self.sym, &e.ty, "__ret");
                    let m: String = inner.emit_move_out_null(st, Ghost(d), e);
                    cat6(
                        &line(self.ind, "{"),
                        &line(&ind2, &cat4(&decl, " = ", &s, ";")),
                        &m,
                        &return_drops(self.sym, self.owns, self.f, &ind2, drops),
                        &line(&ind2, "return __ret;"),
                        &line(self.ind, "}"),
                    )
                }
            },
            None => cat2(
                &return_drops(self.sym, self.owns, self.f, self.ind, drops),
                &line(self.ind, "return;"),
            ),
        }
    }

    /// Writes a loop over the elements of an array, a slice or a vector.
    fn emit_for_each(
        &self,
        st: &mut State,
        Ghost(d): Ghost<nat>,
        Ghost(s): Ghost<HStmt>,
        var: LocalId,
        src: &HExpr,
        body: &HBlock,
    ) -> (r: String)
        requires
            self.wf(),
            old(st).wf(),
            !self.cx().spliced(),
            s == (HStmt::ForEach { var, src: *src, body: *body }),
            validity::stmt_ok(d, *self.sym, *self.f, s),
        ensures
            final(st).wf(),
            (Out { text: r@, st: final(st).st() }) == lowered::for_each_c(d, self.cx(), old(st).st(), s),
        decreases d, s, 0nat,
    {
        proof {
            reveal(lowered::for_each_c);
            reveal(lowered::expr_c);
            reveal(validity::stmt_ok);
            reveal(validity::expr_ok);
        }
        let li: &LocalInfo = &self.f.locals[var.0 as usize];
        let name: String = local_name(var, &li.name);
        let ty: String = c_type(self.sym, &li.ty);
        let s: String = self.emit_expr(st, Ghost(d), src);
        let ind2: String = deeper(self.ind);
        let ind3: String = deeper(&ind2);
        let inner: Lowering = self.at(&ind3);
        let open: String = cat2(
            &line(self.ind, "{"),
            &source_decl(self.sym, &ind2, &src.ty, &s),
        );
        let head: String = line(
            &ind2,
            &cat3("for (maka_int __i = 0; __i < ", &source_len(&src.ty), "; __i += 1) {"),
        );
        let elems: String = source_elems(&src.ty, &s);
        let close: String = cat2(&line(&ind2, "}"), &line(self.ind, "}"));
        let kept: bool = keeps_source(self.f.locals.len(), src, body);
        let value_struct: bool = match &li.ty {
            HType::Struct(_) => !drop_ty_owns(self.sym, self.owns, &li.ty),
            _ => false,
        };
        if value_struct && !block_mutates_local(body, var.0) && kept {
            st.aliased.insert(var.0, ());
            let b: String = inner.emit_block(st, Ghost(d), body);
            st.aliased.remove(&var.0);
            let bind: String = cat6(&ty, "* ", &name, " = &(", &elems, "[__i]);");
            cat5(&open, &head, &line(&ind3, &bind), &b, &close)
        } else {
            let b: String = inner.emit_block(st, Ghost(d), body);
            cat6(
                &open,
                &line(&ind2, &cat4(&ty, " ", &name, " = {0};")),
                &head,
                &line(&ind3, &cat4(&name, " = ", &elems, "[__i];")),
                &b,
                &close,
            )
        }
    }

    /// Writes a statement.
    #[verifier::spinoff_prover]
    #[verifier::rlimit(50)]
    pub(crate) fn emit_stmt(&self, st: &mut State, Ghost(d): Ghost<nat>, s: &HStmt) -> (r: String)
        requires
            self.wf(),
            old(st).wf(),
            !self.cx().spliced(),
            validity::stmt_ok(d, *self.sym, *self.f, *s),
        ensures
            final(st).wf(),
            (Out { text: r@, st: final(st).st() }) == lowered::stmt_c(d, self.cx(), old(st).st(), *s),
        decreases d, s, 1nat,
    {
        proof {
            reveal(lowered::stmt_c);
            reveal(validity::stmt_ok);
            reveal(lowered::expr_c);
            reveal(validity::expr_ok);
            reveal(lowered::let_c);
            reveal(lowered::assign_c);
            reveal(lowered::return_c);
            reveal(lowered::for_each_c);
        }
        let ind2: String = deeper(self.ind);
        let inner: Lowering = self.at(&ind2);
        assert(inner.cx() == self.cx().nested());
        match s {
            HStmt::Let { local, init } => self.emit_let(st, Ghost(d), *local, init),
            HStmt::Assign { op, place, value } => self.emit_assign(
                st,
                Ghost(d),
                Ghost(*s),
                *op,
                place,
                value,
            ),
            HStmt::ExprStmt(e) => {
                let o: String = self.emit_expr(st, Ghost(d), e);
                line(self.ind, &cat3("(void)(", &o, ");"))
            },
            HStmt::Return { value, heap_drops } => self.emit_return(
                st,
                Ghost(d),
                value,
                heap_drops,
            ),
            HStmt::If { cond, then_b, else_b } => {
                let c: String = self.emit_expr(st, Ghost(d), cond);
                let t: String = inner.emit_block(st, Ghost(d), then_b);
                let head: String = cat2(&line(self.ind, &cat3("if (", &c, ") {")), &t);
                match else_b {
                    Some(b) => {
                        let e: String = inner.emit_block(st, Ghost(d), b);
                        cat4(&head, &line(self.ind, "} else {"), &e, &line(self.ind, "}"))
                    },
                    None => cat2(&head, &line(self.ind, "}")),
                }
            },
            HStmt::While { cond, body } => {
                let c: String = self.emit_expr(st, Ghost(d), cond);
                let b: String = inner.emit_block(st, Ghost(d), body);
                cat3(&line(self.ind, &cat3("while (", &c, ") {")), &b, &line(self.ind, "}"))
            },
            HStmt::Block(b) => {
                let o: String = inner.emit_block(st, Ghost(d), b);
                cat3(&line(self.ind, "{"), &o, &line(self.ind, "}"))
            },
            HStmt::Unsafe(b) => {
                let o: String = inner.emit_block(st, Ghost(d), b);
                cat3(&line(self.ind, "/* unsafe */ {"), &o, &line(self.ind, "}"))
            },
            HStmt::Break => line(self.ind, "break;"),
            HStmt::Continue => line(self.ind, "continue;"),
            HStmt::Propagate { value } => match value {
                Some(e) => {
                    let o: String = self.emit_expr(st, Ghost(d), e);
                    line(self.ind, &cat3("return ", &o, ";"))
                },
                None => line(self.ind, "return;"),
            },
            HStmt::ForC { init, cond, step, body } => {
                let i: String = self.emit_stmt(st, Ghost(d), init);
                let c: String = self.emit_expr(st, Ghost(d), cond);
                let p: String = self.emit_step_expr(st, Ghost(d), step);
                let counters: Vec<(u32, BceBound)> = inner.counters(
                    known_counter(init, cond, step, body),
                );
                let counted: Lowering = inner.within(&counters);
                assert(counted.cx() == self.cx().nested().counting(
                    analysis::loop_bound(**init, *cond, **step, *body),
                ));
                let b: String = counted.emit_block(st, Ghost(d), body);
                cat4(
                    &i,
                    &line(self.ind, &cat5("for (; ", &c, "; ", &p, ") {")),
                    &b,
                    &line(self.ind, "}"),
                )
            },
            HStmt::ForEach { var, src, body } => self.emit_for_each(
                st,
                Ghost(d),
                Ghost(*s),
                *var,
                src,
                body,
            ),
        }
    }
}

} // verus!
