//! Writing match expressions.
use vstd::prelude::*;

use crate::context::{Lowering, Out, State};
use crate::ctypes::c_type;
use crate::frames::{collapse, release, splice_end};
use crate::hir::{HArmKind, HExpr, HExprKind, HMatchArm, HType};
use crate::lowered;
use crate::patterns::{
    match_as_switch, match_bindings, match_predicate, scrutinee_binding, tag_expr,
};
use crate::text::{cat2, cat3, cat5, cat6, cat7, cat8, dec_i64, own, str_eq};
use crate::validity;

verus! {

impl<'a> Lowering<'a> {
    /// Writes a match.
    pub(crate) fn emit_match(
        &self,
        st: &mut State,
        Ghost(d): Ghost<nat>,
        Ghost(e): Ghost<HExpr>,
        scrutinee: &HExpr,
        arms: &Vec<HMatchArm>,
        result_ty: &HType,
    ) -> (r: String)
        requires
            self.wf(),
            old(st).wf(),
            e.kind == (HExprKind::Match {
                scrutinee: Box::new(*scrutinee),
                arms: *arms,
                result_ty: *result_ty,
            }),
            validity::expr_ok(d, *self.sym, *self.f, self.cx().spliced(), e),
        ensures
            final(st).wf(),
            (Out { text: r@, st: final(st).st() }) == lowered::match_c(d, self.cx(), old(st).st(), e),
        decreases d, e, 1nat,
    {
        proof {
            reveal(lowered::match_c);
            reveal(lowered::expr_c);
            reveal(validity::expr_ok);
        }
        let s: String = self.emit_expr(st, Ghost(d), scrutinee);
        let wanted: bool = match result_ty {
            HType::Unit => false,
            _ => true,
        };
        let decl: String = if wanted {
            cat2(&c_type(self.sym, result_ty), " __r = {0}; ")
        } else {
            own("")
        };
        let head: String = cat6(
            "__extension__ ({ ",
            &c_type(self.sym, &scrutinee.ty),
            " __s = ",
            &s,
            "; ",
            &decl,
        );
        let tail: String = cat2(if wanted { "__r; " } else { "MAKA_UNIT; " }, "})");
        match match_as_switch(&scrutinee.ty, arms) {
            Some(id) => {
                let a: String = self.emit_switch_arms(st, Ghost(d), arms, wanted);
                cat7(
                    &head,
                    "switch (",
                    tag_expr(self.sym.enum_info(id)),
                    ") { ",
                    &a,
                    "} ",
                    &tail,
                )
            },
            None => {
                let a: String = self.emit_chain_arms(st, Ghost(d), arms, wanted);
                cat5(&head, "do { ", &a, "} while (0); ", &tail)
            },
        }
    }

    /// Writes the statements and the value of an arm.
    fn emit_arm_body(
        &self,
        st: &mut State,
        Ghost(d): Ghost<nat>,
        a: &HMatchArm,
        wanted: bool,
    ) -> (r: String)
        requires
            self.wf(),
            old(st).wf(),
            validity::arm_ok(d, *self.sym, *self.f, self.cx().spliced(), *a),
        ensures
            final(st).wf(),
            (Out { text: r@, st: final(st).st() }) == lowered::arm_body_c(
                d,
                self.cx(),
                old(st).st(),
                *a,
                wanted,
            ),
        decreases d, a, 1nat,
    {
        proof {
            reveal(lowered::expr_c);
            reveal(validity::expr_ok);
        }
        let s: String = match self.tag {
            Some(tag) => self.emit_inline_stmts(st, Ghost(d), tag, &a.body.stmts),
            None => self.emit_stmts(st, Ghost(d), &a.body.stmts),
        };
        let end: String = match self.tag {
            Some(tag) => splice_end(self.sym, self.owns, self.ind, self.f, tag, &a.body),
            None => cat2(
                &collapse(self.f, self.ind, &a.body.ptr_nulls),
                &release(self.sym, self.owns, self.f, self.ind, &a.body.heap_to_free),
            ),
        };
        match &a.value {
            Some(v) => {
                let o: String = self.emit_expr(st, Ghost(d), v);
                cat5(&s, if wanted { "__r = (" } else { "(void)(" }, &o, "); ", &end)
            },
            None => cat2(&s, &end),
        }
    }

    /// Writes the arms of a pure tag dispatch as cases.
    fn emit_switch_arms(
        &self,
        st: &mut State,
        Ghost(d): Ghost<nat>,
        arms: &Vec<HMatchArm>,
        wanted: bool,
    ) -> (r: String)
        requires
            self.wf(),
            old(st).wf(),
            validity::arms_ok(d, *self.sym, *self.f, self.cx().spliced(), *arms, arms@.len()),
        ensures
            final(st).wf(),
            (Out { text: r@, st: final(st).st() }) == lowered::switch_arms_c(
                d,
                self.cx(),
                old(st).st(),
                *arms,
                wanted,
                arms@.len(),
            ),
        decreases d, arms, arms@.len(),
    {
        let mut out: String = own("");
        let mut i: usize = 0;
        while i < arms.len()
            invariant
                i <= arms@.len(),
                self.wf(),
                st.wf(),
                    validity::arms_ok(d, *self.sym, *self.f, self.cx().spliced(), *arms, arms@.len()),
                (Out { text: out@, st: st.st() }) == lowered::switch_arms_c(
                    d,
                    self.cx(),
                    old(st).st(),
                    *arms,
                    wanted,
                    i as nat,
                ),
            decreases arms@.len() - i,
        {
            proof {
                validity::lemma_arms_ok(
                    d,
                    *self.sym,
                    *self.f,
                    self.cx().spliced(),
                    *arms,
                    arms@.len(),
                    i as int,
                );
            }
            let a: &HMatchArm = &arms[i];
            let label: String = match &a.kind {
                HArmKind::Variant { enum_id, variant, .. } => {
                    let tag: i64 = self.sym.enum_info(*enum_id).variants[*variant].tag;
                    cat3("case ", &dec_i64(tag), ": { ")
                },
                HArmKind::Else => own("default: { "),
                _ => own(""),
            };
            let bound: String = match_bindings(self.sym, self.f, self.tag, &a.kind);
            let whole: String = scrutinee_binding(self.sym, self.f, self.tag, a.scrut_binding);
            let body: String = self.emit_arm_body(st, Ghost(d), a, wanted);
            out = cat6(&out, &label, &bound, &whole, &body, "} break; ");
            i += 1;
        }
        out
    }

    /// Writes one arm of a chain of tests.
    fn emit_chain_arm(
        &self,
        st: &mut State,
        Ghost(d): Ghost<nat>,
        a: &HMatchArm,
        wanted: bool,
    ) -> (r: String)
        requires
            self.wf(),
            old(st).wf(),
            validity::arm_ok(d, *self.sym, *self.f, self.cx().spliced(), *a),
        ensures
            final(st).wf(),
            (Out { text: r@, st: final(st).st() }) == lowered::chain_arm_c(
                d,
                self.cx(),
                old(st).st(),
                *a,
                wanted,
            ),
        decreases d, a, 2nat,
    {
        proof {
            reveal(lowered::expr_c);
            reveal(validity::expr_ok);
        }
        let pred: String = match_predicate(self.sym, &a.kind);
        let bound: String = match_bindings(self.sym, self.f, self.tag, &a.kind);
        let whole: String = scrutinee_binding(self.sym, self.f, self.tag, a.scrut_binding);
        let guard: String = match &a.guard {
            Some(g) => self.emit_expr(st, Ghost(d), g),
            None => own(""),
        };
        let is_variant: bool = match &a.kind {
            HArmKind::Variant { .. } => true,
            _ => false,
        };
        let inside: bool = a.guard.is_some() && (a.scrut_binding.is_some() || is_variant);
        let test: String = if a.guard.is_none() || inside {
            pred
        } else if str_eq(&pred, "1") {
            cat3("(", &guard, ")")
        } else {
            cat5("((", &pred, ") && (", &guard, "))")
        };
        let opened: String = if inside { cat3("if (", &guard, ") { ") } else { own("") };
        let body: String = self.emit_arm_body(st, Ghost(d), a, wanted);
        cat8(
            "if (",
            &test,
            ") { ",
            &bound,
            &whole,
            &opened,
            &body,
            if inside { " break; } } " } else { " break; } " },
        )
    }

    /// Writes the arms as a chain of tests.
    fn emit_chain_arms(
        &self,
        st: &mut State,
        Ghost(d): Ghost<nat>,
        arms: &Vec<HMatchArm>,
        wanted: bool,
    ) -> (r: String)
        requires
            self.wf(),
            old(st).wf(),
            validity::arms_ok(d, *self.sym, *self.f, self.cx().spliced(), *arms, arms@.len()),
        ensures
            final(st).wf(),
            (Out { text: r@, st: final(st).st() }) == lowered::chain_arms_c(
                d,
                self.cx(),
                old(st).st(),
                *arms,
                wanted,
                arms@.len(),
            ),
        decreases d, arms, arms@.len(),
    {
        let mut out: String = own("");
        let mut i: usize = 0;
        while i < arms.len()
            invariant
                i <= arms@.len(),
                self.wf(),
                st.wf(),
                    validity::arms_ok(d, *self.sym, *self.f, self.cx().spliced(), *arms, arms@.len()),
                (Out { text: out@, st: st.st() }) == lowered::chain_arms_c(
                    d,
                    self.cx(),
                    old(st).st(),
                    *arms,
                    wanted,
                    i as nat,
                ),
            decreases arms@.len() - i,
        {
            proof {
                validity::lemma_arms_ok(
                    d,
                    *self.sym,
                    *self.f,
                    self.cx().spliced(),
                    *arms,
                    arms@.len(),
                    i as int,
                );
            }
            let a: String = self.emit_chain_arm(st, Ghost(d), &arms[i], wanted);
            out.append(&a);
            i += 1;
        }
        out
    }
}

} // verus!
