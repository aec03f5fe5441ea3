//! Writing expressions.
use vstd::prelude::*;

use crate::builtins::{builtin, builtin_call, evaluated_args};
use crate::context::{Lowering, Out, Outs, State};
use crate::ctypes::c_type;
use crate::frames;
use crate::frames::find_value;
use crate::hir::{
    CastKind, EnumInfo, FieldInfo, FuncId, FuncSig, HExpr, HExprKind, HType, StructInfo,
    VariantInfo,
};
use crate::lowered;
use crate::operators::{
    bool_literal, char_literal, emit_cast, float_literal, int_literal, str_literal,
};
use crate::places::{field_access, index_access};
use crate::text;
use crate::text::{c_ident, cat3, cat4, cat5, no_parts, own, push_part};
use crate::validity;
use crate::values::{
    addr_value, array_literal, bin_value, closure_value, direct_call, dispatch_call, enum_tag,
    fn_ref, free_value, heap_cell, heap_copy, heap_fill, indirect_call, local_value,
    payload_value, slice_len, slice_view, struct_value, to_dyn, un_value, unwrap_value,
    variant_value,
};

verus! {

impl<'a> Lowering<'a> {
    /// Writes the values from position `from` up to `n`.
    pub(crate) fn emit_exprs(
        &self,
        st: &mut State,
        Ghost(d): Ghost<nat>,
        v: &Vec<HExpr>,
        from: usize,
        n: usize,
    ) -> (r: Vec<String>)
        requires
            self.wf(),
            old(st).wf(),
            n <= v@.len(),
            validity::exprs_ok(d, *self.sym, *self.f, self.cx().spliced(), *v, from as nat, n as nat),
        ensures
            final(st).wf(),
            r@.len() == if from < n { n - from } else { 0 },
            (Outs { texts: text::views(r@), st: final(st).st() }) == lowered::exprs_c(
                d,
                self.cx(),
                old(st).st(),
                *v,
                from as nat,
                n as nat,
            ),
        decreases d, v, n,
    {
        let mut parts: Vec<String> = no_parts();
        if from >= n {
            assert(text::views(parts@).len() == parts@.len());
            return parts;
        }
        let mut i: usize = from;
        while i < n
            invariant
                from <= i <= n,
                n <= v@.len(),
                self.wf(),
                st.wf(),
                validity::exprs_ok(d, *self.sym, *self.f, self.cx().spliced(), *v, from as nat, n as nat),
                text::views(parts@).len() == i - from,
                (Outs { texts: text::views(parts@), st: st.st() }) == lowered::exprs_c(
                    d,
                    self.cx(),
                    old(st).st(),
                    *v,
                    from as nat,
                    i as nat,
                ),
            decreases n - i,
        {
            proof {
                reveal(lowered::expr_c);
                validity::lemma_exprs_ok(
                    d,
                    *self.sym,
                    *self.f,
                    self.cx().spliced(),
                    *v,
                    from as nat,
                    n as nat,
                    i as int,
                );
            }
            let s: String = self.emit_expr(st, Ghost(d), &v[i]);
            push_part(&mut parts, s);
            i += 1;
        }
        parts
    }

    /// Writes the initializers of the fields from a literal's values.
    pub(crate) fn emit_inits(
        &self,
        st: &mut State,
        Ghost(d): Ghost<nat>,
        infos: &Vec<FieldInfo>,
        fields: &Vec<(usize, HExpr)>,
        dflt: &str,
    ) -> (r: Vec<String>)
        requires
            self.wf(),
            old(st).wf(),
            validity::values_ok(d, *self.sym, *self.f, self.cx().spliced(), *fields, infos@.len()),
        ensures
            final(st).wf(),
            (Outs { texts: text::views(r@), st: final(st).st() }) == lowered::inits_c(
                d,
                self.cx(),
                old(st).st(),
                infos@,
                *fields,
                dflt@,
                infos@.len(),
            ),
        decreases d, fields, infos@.len(),
    {
        let mut parts: Vec<String> = no_parts();
        let mut i: usize = 0;
        while i < infos.len()
            invariant
                i <= infos@.len(),
                self.wf(),
                st.wf(),
                validity::values_ok(d, *self.sym, *self.f, self.cx().spliced(), *fields, infos@.len()),
                (Outs { texts: text::views(parts@), st: st.st() }) == lowered::inits_c(
                    d,
                    self.cx(),
                    old(st).st(),
                    infos@,
                    *fields,
                    dflt@,
                    i as nat,
                ),
            decreases infos@.len() - i,
        {
            proof {
                reveal(lowered::expr_c);
                validity::lemma_values_ok(
                    d,
                    *self.sym,
                    *self.f,
                    self.cx().spliced(),
                    *fields,
                    infos@.len(),
                    i as int,
                );
                frames::lemma_value_in_range(fields@, i as int, 0);
            }
            let v: String = match find_value(fields, i) {
                Some(p) => self.emit_expr(st, Ghost(d), &fields[p].1),
                None => own(dflt),
            };
            push_part(&mut parts, cat4(".", &c_ident(&infos[i].name), " = ", &v));
            i += 1;
        }
        parts
    }

    /// Writes an expression.
    #[verifier::spinoff_prover]
    #[verifier::rlimit(50)]
    pub(crate) fn emit_expr(&self, st: &mut State, Ghost(d): Ghost<nat>, e: &HExpr) -> (r: String)
        requires
            self.wf(),
            old(st).wf(),
            validity::expr_ok(d, *self.sym, *self.f, self.cx().spliced(), *e),
        ensures
            final(st).wf(),
            (Out { text: r@, st: final(st).st() }) == lowered::expr_c(d, self.cx(), old(st).st(), *e),
        decreases d, e, 2nat,
    {
        proof {
            reveal(lowered::expr_c);
            reveal(validity::expr_ok);
        }
        match &e.kind {
            HExprKind::LitInt(n) => int_literal(*n),
            HExprKind::LitFloat(v) => float_literal(v),
            HExprKind::LitBool(b) => bool_literal(*b),
            HExprKind::LitChar(c) => char_literal(*c),
            HExprKind::LitStr(s) => str_literal(s),
            HExprKind::LitNull => own("NULL"),
            HExprKind::LitUnit => own("MAKA_UNIT"),
            HExprKind::Local(id) => local_value(self.f, self.tag, &st.aliased, *id),
            HExprKind::GlobalRef(id) => own(&self.sym.global_info(*id).c_name),
            HExprKind::CallIndirect { callee, args } => {
                let c: String = self.emit_expr(st, Ghost(d), callee);
                let a: Vec<String> = self.emit_exprs(st, Ghost(d), args, 0, args.len());
                indirect_call(&callee.ty, &c, &a)
            },
            HExprKind::InlineCall { callee, args } => self.emit_inline_expansion(
                st,
                Ghost(d),
                *callee,
                args,
                &e.ty,
            ),
            HExprKind::Transfer(x) => self.emit_expr(st, Ghost(d), x),
            HExprKind::EnumTag(x) => {
                let s: String = self.emit_expr(st, Ghost(d), x);
                enum_tag(self.sym, &x.ty, &s)
            },
            HExprKind::SliceLen(x) => {
                let s: String = self.emit_expr(st, Ghost(d), x);
                slice_len(&x.ty, &s)
            },
            HExprKind::Closure { lifted, env_struct, env_values } => {
                let env: &StructInfo = self.sym.struct_info(*env_struct);
                let n: usize = if env_values.len() < env.fields.len() {
                    env_values.len()
                } else {
                    env.fields.len()
                };
                let v: Vec<String> = self.emit_exprs(st, Ghost(d), env_values, 0, n);
                closure_value(self.sym.func_sig(*lifted), env, &v)
            },
            HExprKind::FnRef(id) => fn_ref(self.sym.func_sig(*id)),
            HExprKind::EnumVariant(id, v) => {
                let info: &EnumInfo = self.sym.enum_info(*id);
                variant_value(info, &info.variants[*v])
            },
            HExprKind::Bin { op, lhs, rhs } => {
                let l: String = self.emit_expr(st, Ghost(d), lhs);
                let r: String = self.emit_expr(st, Ghost(d), rhs);
                bin_value(self.sym, *op, &lhs.ty, &rhs.ty, &l, &r)
            },
            HExprKind::Un { op, expr } => {
                let v: String = self.emit_expr(st, Ghost(d), expr);
                un_value(*op, &v)
            },
            HExprKind::Unwrap { expr, .. } => {
                let s: String = self.emit_expr(st, Ghost(d), expr);
                unwrap_value(&expr.ty, s)
            },
            HExprKind::AddrOfRef { place, .. } => {
                let p: String = self.emit_place(st, Ghost(d), place);
                addr_value(&place.ty, p)
            },
            HExprKind::Field { base, field } => {
                let b: String = self.emit_expr(st, Ghost(d), base);
                let (arrow, name) = field_access(self.sym, base, *field);
                cat5("(", &b, arrow, &name, ")")
            },
            HExprKind::Index { base, idx } => {
                let b: String = self.emit_expr(st, Ghost(d), base);
                let i: String = self.emit_expr(st, Ghost(d), idx);
                index_access(self.bounded, base, idx, &b, &i)
            },
            HExprKind::Call { callee, args } => self.emit_call(st, Ghost(d), *callee, args),
            HExprKind::Cast { expr, kind, to } => {
                let s: String = self.emit_expr(st, Ghost(d), expr);
                match kind {
                    CastKind::ToDyn { trait_name, struct_id } => to_dyn(
                        trait_name,
                        &self.sym.struct_info(*struct_id).name,
                        &expr.ty,
                        &s,
                    ),
                    _ => emit_cast(self.sym, &s, kind, to),
                }
            },
            HExprKind::CheckedCast { expr, kind, to } => {
                let s: String = self.emit_expr(st, Ghost(d), expr);
                emit_cast(self.sym, &s, kind, to)
            },
            HExprKind::Struct { id, fields } => {
                let info: &StructInfo = self.sym.struct_info(*id);
                let p: Vec<String> = self.emit_inits(st, Ghost(d), &info.fields, fields, "NULL");
                struct_value(&info.name, &p)
            },
            HExprKind::ArrayLit(es) => {
                let p: Vec<String> = self.emit_exprs(st, Ghost(d), es, 0, es.len());
                array_literal(self.sym, &e.ty, &p)
            },
            HExprKind::DropWrite(x) => self.emit_expr(st, Ghost(d), x),
            HExprKind::DerefRef(x) => {
                let s: String = self.emit_expr(st, Ghost(d), x);
                cat3("(*(", &s, "))")
            },
            HExprKind::HeapAlloc(x) => match &x.ty {
                HType::Array { len, elem } => {
                    let c: String = c_type(self.sym, elem);
                    match &x.kind {
                        HExprKind::ArrayLit(es) => {
                            let p: Vec<String> = self.emit_exprs(st, Ghost(d), es, 0, es.len());
                            heap_fill(&c, *len, &p)
                        },
                        _ => {
                            let v: String = self.emit_expr(st, Ghost(d), x);
                            heap_copy(&c, *len, &v)
                        },
                    }
                },
                _ => {
                    let v: String = self.emit_expr(st, Ghost(d), x);
                    heap_cell(&c_type(self.sym, &x.ty), &v)
                },
            },
            HExprKind::Free(x) => {
                let s: String = self.emit_expr(st, Ghost(d), x);
                free_value(&s)
            },
            HExprKind::Match { scrutinee, arms, result_ty } => self.emit_match(
                st,
                Ghost(d),
                Ghost(*e),
                scrutinee,
                arms,
                result_ty,
            ),
            HExprKind::VariantCtor { enum_id, variant, fields } => {
                let info: &EnumInfo = self.sym.enum_info(*enum_id);
                let v: &VariantInfo = &info.variants[*variant];
                let p: Vec<String> = self.emit_inits(st, Ghost(d), &v.fields, fields, "0");
                payload_value(info, v, &p)
            },
            HExprKind::ArrayToSlice { base, len } => {
                let b: String = self.emit_expr(st, Ghost(d), base);
                slice_view(self.sym, &e.ty, &b, *len)
            },
        }
    }

    /// Writes an lvalue.
    pub(crate) fn emit_place(&self, st: &mut State, Ghost(d): Ghost<nat>, e: &HExpr) -> (r: String)
        requires
            self.wf(),
            old(st).wf(),
            validity::expr_ok(d, *self.sym, *self.f, self.cx().spliced(), *e),
        ensures
            final(st).wf(),
            (Out { text: r@, st: final(st).st() }) == lowered::place_c(d, self.cx(), old(st).st(), *e),
        decreases d, e, 3nat,
    {
        proof {
            reveal(lowered::place_c);
            reveal(lowered::expr_c);
            reveal(validity::expr_ok);
        }
        match &e.kind {
            HExprKind::Field { base, field } => {
                let b: String = self.emit_expr(st, Ghost(d), base);
                let (arrow, name) = field_access(self.sym, base, *field);
                cat3(&b, arrow, &name)
            },
            _ => self.emit_expr(st, Ghost(d), e),
        }
    }

    /// Writes a call.
    pub(crate) fn emit_call(
        &self,
        st: &mut State,
        Ghost(d): Ghost<nat>,
        callee: FuncId,
        args: &Vec<HExpr>,
    ) -> (r: String)
        requires
            self.wf(),
            old(st).wf(),
            validity::call_ok(d, *self.sym, *self.f, self.cx().spliced(), callee, *args),
        ensures
            final(st).wf(),
            (Out { text: r@, st: final(st).st() }) == lowered::call_c(
                d,
                self.cx(),
                old(st).st(),
                callee,
                *args,
            ),
        decreases d, args, args@.len() + 3,
    {
        proof {
            reveal(lowered::call_c);
            reveal(lowered::place_c);
            reveal(lowered::expr_c);
            reveal(validity::expr_ok);
        }
        match builtin(callee) {
            Some(b) => {
                let n: usize = evaluated_args(b, args.len());
                let t: Vec<String> = self.emit_exprs(st, Ghost(d), args, 0, n);
                builtin_call(self.sym, b, args, &t)
            },
            None => {
                let sig: &FuncSig = self.sym.func_sig(callee);
                if args.len() > 0 && args[0].ty.dyn_value() {
                    let recv: String = match &args[0].kind {
                        HExprKind::AddrOfRef { place, .. } => self.emit_place(st, Ghost(d), place),
                        _ => self.emit_expr(st, Ghost(d), &args[0]),
                    };
                    let rest: Vec<String> = self.emit_exprs(st, Ghost(d), args, 1, args.len());
                    dispatch_call(sig, &recv, &rest)
                } else {
                    let a: Vec<String> = self.emit_exprs(st, Ghost(d), args, 0, args.len());
                    direct_call(sig, &a)
                }
            },
        }
    }
}

} // verus!
