//! A first pass over function bodies: which typedefs, method tables and trampolines
//! the module needs.
use vstd::prelude::*;

use crate::ctypes;
use crate::ctypes::{type_key, whole_sig_key};
use crate::hir::{CastKind, HExpr, HExprKind, HFunc, HMatchArm, HStmt, HType, LocalInfo, SymTab};
use crate::sorted::SortedMap;
use crate::text::own;

verus! {

/// What the first pass found.
#[verifier::ext_equal]
pub struct Noted {
    /// Keys of the element types of slices.
    pub slices: Set<Seq<char>>,
    /// Keys of the element types of vectors.
    pub vecs: Set<Seq<char>>,
    /// Traits of which trait objects are used.
    pub traits: Set<Seq<char>>,
    /// Traits with the structs that are turned into their objects.
    pub insts: Set<(Seq<char>, u32)>,
    /// Function types by their signature key.
    pub callables: Map<Seq<char>, (HType, Vec<HType>)>,
    /// Functions that are used as values.
    pub refs: Set<u32>,
    /// Lifted lambdas that are used as closures.
    pub closures: Set<u32>,
}

/// A function type that is used as a value.
pub struct CallableSig<'a> {
    pub ret: &'a HType,
    pub params: &'a Vec<HType>,
}

/// What the first pass found.
pub struct Notes<'a> {
    pub slices: SortedMap<String, ()>,
    pub vecs: SortedMap<String, ()>,
    pub traits: SortedMap<String, ()>,
    pub insts: SortedMap<(String, u32), ()>,
    pub callables: SortedMap<String, CallableSig<'a>>,
    pub refs: SortedMap<u32, ()>,
    pub closures: SortedMap<u32, ()>,
}

/// The function types behind the references.
pub open spec fn sigs_of(m: Map<Seq<char>, CallableSig>) -> Map<Seq<char>, (HType, Vec<HType>)> {
    Map::new(|k: Seq<char>| m.dom().contains(k), |k: Seq<char>| (*m[k].ret, *m[k].params))
}

impl<'a> Notes<'a> {
    /// The lists are well formed.
    pub open spec fn wf(self) -> bool {
        &&& self.slices.wf()
        &&& self.vecs.wf()
        &&& self.traits.wf()
        &&& self.insts.wf()
        &&& self.callables.wf()
        &&& self.refs.wf()
        &&& self.closures.wf()
    }

    /// The model of the lists.
    pub open spec fn noted(self) -> Noted {
        Noted {
            slices: self.slices.dom(),
            vecs: self.vecs.dom(),
            traits: self.traits.dom(),
            insts: self.insts.dom(),
            callables: sigs_of(self.callables.map()),
            refs: self.refs.dom(),
            closures: self.closures.dom(),
        }
    }

    /// Empty lists.
    pub fn new() -> (r: Self)
        ensures
            r.wf(),
            r.noted() == nothing(),
    {
        let r = Notes {
            slices: SortedMap::new(),
            vecs: SortedMap::new(),
            traits: SortedMap::new(),
            insts: SortedMap::new(),
            callables: SortedMap::new(),
            refs: SortedMap::new(),
            closures: SortedMap::new(),
        };
        assert(r.noted() =~= nothing());
        r
    }
}

/// Nothing was seen.
pub open spec fn nothing() -> Noted {
    Noted {
        slices: Set::empty(),
        vecs: Set::empty(),
        traits: Set::empty(),
        insts: Set::empty(),
        callables: Map::empty(),
        refs: Set::empty(),
        closures: Set::empty(),
    }
}

/// The element types of the slices and vectors in `t` have keys.
pub open spec fn note_ok(sym: SymTab, t: HType) -> bool
    decreases t,
{
    match t {
        HType::Slice { elem, .. } => ctypes::key_ok(sym, *elem) && note_ok(sym, *elem),
        HType::Vec { elem } => ctypes::key_ok(sym, *elem) && note_ok(sym, *elem),
        HType::Heap { inner } => note_ok(sym, *inner),
        HType::Ref { inner, .. } | HType::Ptr { inner, .. } | HType::RawPtr { inner, .. }
        | HType::OwnPtr { inner, .. } => note_ok(sym, *inner),
        HType::Array { elem, .. } => note_ok(sym, *elem),
        HType::FnPtr { ret, params, .. } => note_ok(sym, *ret) && notes_ok(
            sym,
            params,
            params@.len(),
        ),
        _ => true,
    }
}

/// [`note_ok`] of the first `n` types.
pub open spec fn notes_ok(sym: SymTab, ts: Vec<HType>, n: nat) -> bool
    decreases ts, n,
{
    n == 0 || n > ts@.len() || (notes_ok(sym, ts, (n - 1) as nat) && note_ok(sym, ts@[n - 1]))
}

proof fn lemma_notes_ok(sym: SymTab, ts: Vec<HType>, n: nat, i: int)
    requires
        notes_ok(sym, ts, n),
        0 <= i < n <= ts@.len(),
    ensures
        note_ok(sym, ts@[i]),
    decreases n,
{
    if i < n - 1 {
        lemma_notes_ok(sym, ts, (n - 1) as nat, i);
    }
}

/// The first `n` names added to a set.
pub open spec fn with_names(s: Set<Seq<char>>, names: Seq<String>, n: nat) -> Set<Seq<char>>
    decreases n,
{
    if n == 0 || n > names.len() {
        s
    } else {
        with_names(s, names, (n - 1) as nat).insert(names[n - 1]@)
    }
}

/// What is known after the type `t` was seen.
pub open spec fn note_c(sym: SymTab, t: HType, n: Noted) -> Noted
    decreases t,
{
    match t {
        HType::Slice { elem, .. } => note_c(
            sym,
            *elem,
            Noted { slices: n.slices.insert(ctypes::ty_key(sym, *elem)), ..n },
        ),
        HType::Vec { elem } => note_c(
            sym,
            *elem,
            Noted { vecs: n.vecs.insert(ctypes::ty_key(sym, *elem)), ..n },
        ),
        HType::Heap { inner } => note_c(sym, *inner, n),
        HType::Ref { inner, .. } | HType::Ptr { inner, .. } | HType::RawPtr { inner, .. }
        | HType::OwnPtr { inner, .. } => note_c(sym, *inner, n),
        HType::Array { elem, .. } => note_c(sym, *elem, n),
        HType::Dyn { traits } => Noted {
            traits: with_names(n.traits, traits@, traits@.len()),
            ..n
        },
        HType::FnPtr { ret, params, ret_key, param_keys } => notes_c(
            sym,
            params,
            params@.len(),
            note_c(
                sym,
                *ret,
                Noted {
                    callables: n.callables.insert(
                        ctypes::sig_key(ret_key@, param_keys@),
                        (*ret, params),
                    ),
                    ..n
                },
            ),
        ),
        _ => n,
    }
}

/// What is known after the first `k` types were seen.
pub open spec fn notes_c(sym: SymTab, ts: Vec<HType>, k: nat, n: Noted) -> Noted
    decreases ts, k,
{
    if k == 0 || k > ts@.len() {
        n
    } else {
        note_c(sym, ts@[k - 1], notes_c(sym, ts, (k - 1) as nat, n))
    }
}

/// Notes the type `t` and those in it.
pub fn note_type<'a>(sym: &SymTab, t: &'a HType, n: &mut Notes<'a>)
    requires
        old(n).wf(),
        note_ok(*sym, *t),
    ensures
        final(n).wf(),
        final(n).noted() == note_c(*sym, *t, old(n).noted()),
    decreases t,
{
    match t {
        HType::Slice { elem, .. } => {
            n.slices.insert(type_key(sym, elem), ());
            note_type(sym, elem, n);
        },
        HType::Vec { elem } => {
            n.vecs.insert(type_key(sym, elem), ());
            note_type(sym, elem, n);
        },
        HType::Heap { inner } => note_type(sym, inner, n),
        HType::Ref { inner, .. } | HType::Ptr { inner, .. } | HType::RawPtr { inner, .. }
        | HType::OwnPtr { inner, .. } => note_type(sym, inner, n),
        HType::Array { elem, .. } => note_type(sym, elem, n),
        HType::Dyn { traits } => {
            let ghost start: Noted = n.noted();
            let mut i: usize = 0;
            while i < traits.len()
                invariant
                    i <= traits@.len(),
                    n.wf(),
                    n.noted() == (Noted {
                        traits: with_names(start.traits, traits@, i as nat),
                        ..start
                    }),
                decreases traits@.len() - i,
            {
                n.traits.insert(own(&traits[i]), ());
                i += 1;
            }
        },
        HType::FnPtr { ret, params, ret_key, param_keys } => {
            let ghost start: Noted = n.noted();
            let key: String = whole_sig_key(ret_key, param_keys);
            let ghost k: Seq<char> = key@;
            n.callables.insert(key, CallableSig { ret, params });
            assert(n.noted().callables =~= start.callables.insert(k, (**ret, *params)));
            note_type(sym, ret, n);
            let ghost mid: Noted = n.noted();
            let mut i: usize = 0;
            while i < params.len()
                invariant
                    i <= params@.len(),
                    n.wf(),
                    notes_ok(*sym, *params, params@.len()),
                    n.noted() == notes_c(*sym, *params, i as nat, mid),
                    decreases_to!(t => params),
                decreases params@.len() - i,
            {
                proof {
                    lemma_notes_ok(*sym, *params, params@.len(), i as int);
                }
                note_type(sym, &params[i], n);
                i += 1;
            }
        },
        _ => {},
    }
}

/// The types in the expression can be noted.
pub open spec fn scan_ok(sym: SymTab, e: HExpr) -> bool
    decreases e, 1nat,
{
    note_ok(sym, e.ty) && scan_parts_ok(sym, e)
}

/// [`scan_ok`] of what the expression is made of.
pub open spec fn scan_parts_ok(sym: SymTab, e: HExpr) -> bool
    decreases e, 0nat,
{
    match e.kind {
        HExprKind::Bin { lhs, rhs, .. } => scan_ok(sym, *lhs) && scan_ok(sym, *rhs),
        HExprKind::Un { expr, .. } => scan_ok(sym, *expr),
        HExprKind::Unwrap { expr, .. } => scan_ok(sym, *expr),
        HExprKind::AddrOfRef { place, .. } => scan_ok(sym, *place),
        HExprKind::Field { base, .. } => scan_ok(sym, *base),
        HExprKind::Index { base, idx } => scan_ok(sym, *base) && scan_ok(sym, *idx),
        HExprKind::Call { args, .. } => scans_ok(sym, args, args@.len()),
        HExprKind::Cast { expr, .. } => scan_ok(sym, *expr),
        HExprKind::CheckedCast { expr, .. } => scan_ok(sym, *expr),
        HExprKind::DropWrite(x) => scan_ok(sym, *x),
        HExprKind::ArrayToSlice { base, .. } => scan_ok(sym, *base),
        HExprKind::DerefRef(x) => scan_ok(sym, *x),
        HExprKind::HeapAlloc(x) => scan_ok(sym, *x),
        HExprKind::Free(x) => scan_ok(sym, *x),
        HExprKind::CallIndirect { callee, args } => scan_ok(sym, *callee) && scans_ok(
            sym,
            args,
            args@.len(),
        ),
        HExprKind::InlineCall { args, .. } => scans_ok(sym, args, args@.len()),
        HExprKind::Closure { env_values, .. } => scans_ok(sym, env_values, env_values@.len()),
        HExprKind::Transfer(x) => scan_ok(sym, *x),
        HExprKind::SliceLen(x) => scan_ok(sym, *x),
        HExprKind::EnumTag(x) => scan_ok(sym, *x),
        HExprKind::VariantCtor { fields, .. } => scan_fields_ok(sym, fields, fields@.len()),
        HExprKind::Match { scrutinee, arms, .. } => scan_ok(sym, *scrutinee) && scan_arms_ok(
            sym,
            arms,
            arms@.len(),
        ),
        HExprKind::Struct { fields, .. } => scan_fields_ok(sym, fields, fields@.len()),
        HExprKind::ArrayLit(es) => scans_ok(sym, es, es@.len()),
        _ => true,
    }
}

/// The first `n` expressions can be scanned.
pub open spec fn scans_ok(sym: SymTab, v: Vec<HExpr>, n: nat) -> bool
    decreases v, n,
{
    n == 0 || n > v@.len() || (scans_ok(sym, v, (n - 1) as nat) && scan_ok(sym, v@[n - 1]))
}

/// The first `n` field values can be scanned.
pub open spec fn scan_fields_ok(sym: SymTab, v: Vec<(usize, HExpr)>, n: nat) -> bool
    decreases v, n,
{
    n == 0 || n > v@.len() || (scan_fields_ok(sym, v, (n - 1) as nat) && scan_ok(
        sym,
        v@[n - 1].1,
    ))
}

/// The first `n` arms can be scanned.
pub open spec fn scan_arms_ok(sym: SymTab, v: Vec<HMatchArm>, n: nat) -> bool
    decreases v, n,
{
    n == 0 || n > v@.len() || {
        &&& scan_arms_ok(sym, v, (n - 1) as nat)
        &&& (match v@[n - 1].guard {
            Some(g) => scan_ok(sym, g),
            None => true,
        })
        &&& scan_stmts_ok(sym, v@[n - 1].body.stmts, v@[n - 1].body.stmts@.len())
        &&& (match v@[n - 1].value {
            Some(x) => scan_ok(sym, x),
            None => true,
        })
    }
}

/// The types in the statement can be noted.
pub open spec fn scan_stmt_ok(sym: SymTab, s: HStmt) -> bool
    decreases s, 0nat,
{
    match s {
        HStmt::Let { init, .. } => scan_ok(sym, init),
        HStmt::Assign { place, value, .. } => scan_ok(sym, place) && scan_ok(sym, value),
        HStmt::ExprStmt(e) => scan_ok(sym, e),
        HStmt::Return { value, .. } => match value {
            Some(e) => scan_ok(sym, e),
            None => true,
        },
        HStmt::If { cond, then_b, else_b } => {
            &&& scan_ok(sym, cond)
            &&& scan_stmts_ok(sym, then_b.stmts, then_b.stmts@.len())
            &&& (match else_b {
                Some(b) => scan_stmts_ok(sym, b.stmts, b.stmts@.len()),
                None => true,
            })
        },
        HStmt::While { cond, body } => scan_ok(sym, cond) && scan_stmts_ok(
            sym,
            body.stmts,
            body.stmts@.len(),
        ),
        HStmt::Block(b) => scan_stmts_ok(sym, b.stmts, b.stmts@.len()),
        HStmt::Unsafe(b) => scan_stmts_ok(sym, b.stmts, b.stmts@.len()),
        HStmt::Break | HStmt::Continue => true,
        HStmt::ForC { init, cond, step, body } => {
            &&& scan_stmt_ok(sym, *init)
            &&& scan_ok(sym, cond)
            &&& scan_stmt_ok(sym, *step)
            &&& scan_stmts_ok(sym, body.stmts, body.stmts@.len())
        },
        HStmt::ForEach { src, body, .. } => scan_ok(sym, src) && scan_stmts_ok(
            sym,
            body.stmts,
            body.stmts@.len(),
        ),
        HStmt::Propagate { value } => match value {
            Some(e) => scan_ok(sym, e),
            None => true,
        },
    }
}

/// The first `n` statements can be scanned.
pub open spec fn scan_stmts_ok(sym: SymTab, v: Vec<HStmt>, n: nat) -> bool
    decreases v, n,
{
    n == 0 || n > v@.len() || (scan_stmts_ok(sym, v, (n - 1) as nat) && scan_stmt_ok(
        sym,
        v@[n - 1],
    ))
}

proof fn lemma_scans_ok(sym: SymTab, v: Vec<HExpr>, n: nat, i: int)
    requires
        scans_ok(sym, v, n),
        0 <= i < n <= v@.len(),
    ensures
        scan_ok(sym, v@[i]),
    decreases n,
{
    if i < n - 1 {
        lemma_scans_ok(sym, v, (n - 1) as nat, i);
    }
}

proof fn lemma_scan_fields_ok(sym: SymTab, v: Vec<(usize, HExpr)>, n: nat, i: int)
    requires
        scan_fields_ok(sym, v, n),
        0 <= i < n <= v@.len(),
    ensures
        scan_ok(sym, v@[i].1),
    decreases n,
{
    if i < n - 1 {
        lemma_scan_fields_ok(sym, v, (n - 1) as nat, i);
    }
}

proof fn lemma_scan_arms_ok(sym: SymTab, v: Vec<HMatchArm>, n: nat, i: int)
    requires
        scan_arms_ok(sym, v, n),
        0 <= i < n <= v@.len(),
    ensures
        match v@[i].guard {
            Some(g) => scan_ok(sym, g),
            None => true,
        },
        scan_stmts_ok(sym, v@[i].body.stmts, v@[i].body.stmts@.len()),
        match v@[i].value {
            Some(x) => scan_ok(sym, x),
            None => true,
        },
    decreases n,
{
    if i < n - 1 {
        lemma_scan_arms_ok(sym, v, (n - 1) as nat, i);
    }
}

proof fn lemma_scan_stmts_ok(sym: SymTab, v: Vec<HStmt>, n: nat, i: int)
    requires
        scan_stmts_ok(sym, v, n),
        0 <= i < n <= v@.len(),
    ensures
        scan_stmt_ok(sym, v@[i]),
    decreases n,
{
    if i < n - 1 {
        lemma_scan_stmts_ok(sym, v, (n - 1) as nat, i);
    }
}

/// What is known after the expression was seen.
pub open spec fn scanned(sym: SymTab, e: HExpr, n: Noted) -> Noted
    decreases e, 1nat,
{
    scanned_parts(sym, e, note_c(sym, e.ty, n))
}

/// What is known after the parts of the expression were seen.
pub open spec fn scanned_parts(sym: SymTab, e: HExpr, n: Noted) -> Noted
    decreases e, 0nat,
{
    match e.kind {
        HExprKind::Bin { lhs, rhs, .. } => scanned(sym, *rhs, scanned(sym, *lhs, n)),
        HExprKind::Un { expr, .. } => scanned(sym, *expr, n),
        HExprKind::Unwrap { expr, .. } => scanned(sym, *expr, n),
        HExprKind::AddrOfRef { place, .. } => scanned(sym, *place, n),
        HExprKind::Field { base, .. } => scanned(sym, *base, n),
        HExprKind::Index { base, idx } => scanned(sym, *idx, scanned(sym, *base, n)),
        HExprKind::Call { args, .. } => scanned_all(sym, args, args@.len(), n),
        HExprKind::Cast { expr, kind, .. } => scanned(
            sym,
            *expr,
            match kind {
                CastKind::ToDyn { trait_name, struct_id } => Noted {
                    traits: n.traits.insert(trait_name@),
                    insts: n.insts.insert((trait_name@, struct_id.0)),
                    ..n
                },
                _ => n,
            },
        ),
        HExprKind::CheckedCast { expr, .. } => scanned(sym, *expr, n),
        HExprKind::DropWrite(x) => scanned(sym, *x, n),
        HExprKind::ArrayToSlice { base, .. } => scanned(sym, *base, n),
        HExprKind::DerefRef(x) => scanned(sym, *x, n),
        HExprKind::HeapAlloc(x) => scanned(sym, *x, n),
        HExprKind::Free(x) => scanned(sym, *x, n),
        HExprKind::CallIndirect { callee, args } => scanned_all(
            sym,
            args,
            args@.len(),
            scanned(sym, *callee, n),
        ),
        HExprKind::InlineCall { args, .. } => scanned_all(sym, args, args@.len(), n),
        HExprKind::Closure { lifted, env_values, .. } => scanned_all(
            sym,
            env_values,
            env_values@.len(),
            Noted { closures: n.closures.insert(lifted.0), ..n },
        ),
        HExprKind::Transfer(x) => scanned(sym, *x, n),
        HExprKind::SliceLen(x) => scanned(sym, *x, n),
        HExprKind::EnumTag(x) => scanned(sym, *x, n),
        HExprKind::FnRef(id) => Noted { refs: n.refs.insert(id.0), ..n },
        HExprKind::VariantCtor { fields, .. } => scanned_fields(sym, fields, fields@.len(), n),
        HExprKind::Match { scrutinee, arms, .. } => scanned_arms(
            sym,
            arms,
            arms@.len(),
            scanned(sym, *scrutinee, n),
        ),
        HExprKind::Struct { fields, .. } => scanned_fields(sym, fields, fields@.len(), n),
        HExprKind::ArrayLit(es) => scanned_all(sym, es, es@.len(), n),
        _ => n,
    }
}

/// What is known after the first `k` expressions.
pub open spec fn scanned_all(sym: SymTab, v: Vec<HExpr>, k: nat, n: Noted) -> Noted
    decreases v, k,
{
    if k == 0 || k > v@.len() {
        n
    } else {
        scanned(sym, v@[k - 1], scanned_all(sym, v, (k - 1) as nat, n))
    }
}

/// What is known after the first `k` field values.
pub open spec fn scanned_fields(sym: SymTab, v: Vec<(usize, HExpr)>, k: nat, n: Noted) -> Noted
    decreases v, k,
{
    if k == 0 || k > v@.len() {
        n
    } else {
        scanned(sym, v@[k - 1].1, scanned_fields(sym, v, (k - 1) as nat, n))
    }
}

/// What is known after the first `k` arms.
pub open spec fn scanned_arms(sym: SymTab, v: Vec<HMatchArm>, k: nat, n: Noted) -> Noted
    decreases v, k,
{
    if k == 0 || k > v@.len() {
        n
    } else {
        let a = v@[k - 1];
        let before = scanned_arms(sym, v, (k - 1) as nat, n);
        let guarded = match a.guard {
            Some(g) => scanned(sym, g, before),
            None => before,
        };
        let body = scanned_stmts(sym, a.body.stmts, a.body.stmts@.len(), guarded);
        match a.value {
            Some(x) => scanned(sym, x, body),
            None => body,
        }
    }
}

/// What is known after the statement was seen.
pub open spec fn scanned_stmt(sym: SymTab, s: HStmt, n: Noted) -> Noted
    decreases s, 0nat,
{
    match s {
        HStmt::Let { init, .. } => scanned(sym, init, note_c(sym, init.ty, n)),
        HStmt::Assign { place, value, .. } => scanned(sym, value, scanned(sym, place, n)),
        HStmt::ExprStmt(e) => scanned(sym, e, n),
        HStmt::Return { value, .. } => match value {
            Some(e) => scanned(sym, e, n),
            None => n,
        },
        HStmt::If { cond, then_b, else_b } => {
            let t = scanned_stmts(
                sym,
                then_b.stmts,
                then_b.stmts@.len(),
                scanned(sym, cond, n),
            );
            match else_b {
                Some(b) => scanned_stmts(sym, b.stmts, b.stmts@.len(), t),
                None => t,
            }
        },
        HStmt::While { cond, body } => scanned_stmts(
            sym,
            body.stmts,
            body.stmts@.len(),
            scanned(sym, cond, n),
        ),
        HStmt::Block(b) => scanned_stmts(sym, b.stmts, b.stmts@.len(), n),
        HStmt::Unsafe(b) => scanned_stmts(sym, b.stmts, b.stmts@.len(), n),
        HStmt::Break | HStmt::Continue => n,
        HStmt::ForC { init, cond, step, body } => scanned_stmts(
            sym,
            body.stmts,
            body.stmts@.len(),
            scanned_stmt(sym, *step, scanned(sym, cond, scanned_stmt(sym, *init, n))),
        ),
        HStmt::ForEach { src, body, .. } => scanned_stmts(
            sym,
            body.stmts,
            body.stmts@.len(),
            scanned(sym, src, n),
        ),
        HStmt::Propagate { value } => match value {
            Some(e) => scanned(sym, e, n),
            None => n,
        },
    }
}

/// What is known after the first `k` statements.
pub open spec fn scanned_stmts(sym: SymTab, v: Vec<HStmt>, k: nat, n: Noted) -> Noted
    decreases v, k,
{
    if k == 0 || k > v@.len() {
        n
    } else {
        scanned_stmt(sym, v@[k - 1], scanned_stmts(sym, v, (k - 1) as nat, n))
    }
}

/// Notes the types and values in an expression.
pub fn scan_expr<'a>(sym: &SymTab, e: &'a HExpr, n: &mut Notes<'a>)
    requires
        old(n).wf(),
        scan_ok(*sym, *e),
    ensures
        final(n).wf(),
        final(n).noted() == scanned(*sym, *e, old(n).noted()),
    decreases e, 1nat,
{
    note_type(sym, &e.ty, n);
    match &e.kind {
        HExprKind::Bin { lhs, rhs, .. } => {
            scan_expr(sym, lhs, n);
            scan_expr(sym, rhs, n);
        },
        HExprKind::Un { expr, .. } => scan_expr(sym, expr, n),
        HExprKind::Unwrap { expr, .. } => scan_expr(sym, expr, n),
        HExprKind::AddrOfRef { place, .. } => scan_expr(sym, place, n),
        HExprKind::Field { base, .. } => scan_expr(sym, base, n),
        HExprKind::Index { base, idx } => {
            scan_expr(sym, base, n);
            scan_expr(sym, idx, n);
        },
        HExprKind::Call { args, .. } => scan_exprs(sym, args, n),
        HExprKind::Cast { expr, kind, .. } => {
            match kind {
                CastKind::ToDyn { trait_name, struct_id } => {
                    n.traits.insert(own(trait_name), ());
                    n.insts.insert((own(trait_name), struct_id.0), ());
                },
                _ => {},
            }
            scan_expr(sym, expr, n);
        },
        HExprKind::CheckedCast { expr, .. } => scan_expr(sym, expr, n),
        HExprKind::DropWrite(x) => scan_expr(sym, x, n),
        HExprKind::ArrayToSlice { base, .. } => scan_expr(sym, base, n),
        HExprKind::DerefRef(x) => scan_expr(sym, x, n),
        HExprKind::HeapAlloc(x) => scan_expr(sym, x, n),
        HExprKind::Free(x) => scan_expr(sym, x, n),
        HExprKind::CallIndirect { callee, args } => {
            scan_expr(sym, callee, n);
            scan_exprs(sym, args, n);
        },
        HExprKind::InlineCall { args, .. } => scan_exprs(sym, args, n),
        HExprKind::Closure { lifted, env_values, .. } => {
            n.closures.insert(lifted.0, ());
            scan_exprs(sym, env_values, n);
        },
        HExprKind::Transfer(x) => scan_expr(sym, x, n),
        HExprKind::SliceLen(x) => scan_expr(sym, x, n),
        HExprKind::EnumTag(x) => scan_expr(sym, x, n),
        HExprKind::FnRef(id) => n.refs.insert(id.0, ()),
        HExprKind::VariantCtor { fields, .. } => scan_fields(sym, fields, n),
        HExprKind::Match { scrutinee, arms, .. } => {
            scan_expr(sym, scrutinee, n);
            scan_arms(sym, arms, n);
        },
        HExprKind::Struct { fields, .. } => scan_fields(sym, fields, n),
        HExprKind::ArrayLit(es) => scan_exprs(sym, es, n),
        _ => {},
    }
}

fn scan_exprs<'a>(sym: &SymTab, v: &'a Vec<HExpr>, n: &mut Notes<'a>)
    requires
        old(n).wf(),
        scans_ok(*sym, *v, v@.len()),
    ensures
        final(n).wf(),
        final(n).noted() == scanned_all(*sym, *v, v@.len(), old(n).noted()),
    decreases v, v@.len(),
{
    let mut i: usize = 0;
    while i < v.len()
        invariant
            i <= v@.len(),
            n.wf(),
            scans_ok(*sym, *v, v@.len()),
            n.noted() == scanned_all(*sym, *v, i as nat, old(n).noted()),
        decreases v@.len() - i,
    {
        proof {
            lemma_scans_ok(*sym, *v, v@.len(), i as int);
        }
        scan_expr(sym, &v[i], n);
        i += 1;
    }
}

fn scan_fields<'a>(sym: &SymTab, v: &'a Vec<(usize, HExpr)>, n: &mut Notes<'a>)
    requires
        old(n).wf(),
        scan_fields_ok(*sym, *v, v@.len()),
    ensures
        final(n).wf(),
        final(n).noted() == scanned_fields(*sym, *v, v@.len(), old(n).noted()),
    decreases v, v@.len(),
{
    let mut i: usize = 0;
    while i < v.len()
        invariant
            i <= v@.len(),
            n.wf(),
            scan_fields_ok(*sym, *v, v@.len()),
            n.noted() == scanned_fields(*sym, *v, i as nat, old(n).noted()),
        decreases v@.len() - i,
    {
        proof {
            lemma_scan_fields_ok(*sym, *v, v@.len(), i as int);
        }
        scan_expr(sym, &v[i].1, n);
        i += 1;
    }
}

fn scan_arms<'a>(sym: &SymTab, v: &'a Vec<HMatchArm>, n: &mut Notes<'a>)
    requires
        old(n).wf(),
        scan_arms_ok(*sym, *v, v@.len()),
    ensures
        final(n).wf(),
        final(n).noted() == scanned_arms(*sym, *v, v@.len(), old(n).noted()),
    decreases v, v@.len(),
{
    let mut i: usize = 0;
    while i < v.len()
        invariant
            i <= v@.len(),
            n.wf(),
            scan_arms_ok(*sym, *v, v@.len()),
            n.noted() == scanned_arms(*sym, *v, i as nat, old(n).noted()),
        decreases v@.len() - i,
    {
        proof {
            lemma_scan_arms_ok(*sym, *v, v@.len(), i as int);
        }
        let a: &HMatchArm = &v[i];
        match &a.guard {
            Some(g) => scan_expr(sym, g, n),
            None => {},
        }
        scan_stmts(sym, &a.body.stmts, n);
        match &a.value {
            Some(x) => scan_expr(sym, x, n),
            None => {},
        }
        i += 1;
    }
}

/// Notes the types and values in a statement.
pub fn scan_stmt<'a>(sym: &SymTab, s: &'a HStmt, n: &mut Notes<'a>)
    requires
        old(n).wf(),
        scan_stmt_ok(*sym, *s),
    ensures
        final(n).wf(),
        final(n).noted() == scanned_stmt(*sym, *s, old(n).noted()),
    decreases s, 0nat,
{
    match s {
        HStmt::Let { init, .. } => {
            assert(scan_ok(*sym, *init));
            note_type(sym, &init.ty, n);
            scan_expr(sym, init, n);
        },
        HStmt::Assign { place, value, .. } => {
            scan_expr(sym, place, n);
            scan_expr(sym, value, n);
        },
        HStmt::ExprStmt(e) => scan_expr(sym, e, n),
        HStmt::Return { value, .. } => match value {
            Some(e) => scan_expr(sym, e, n),
            None => {},
        },
        HStmt::If { cond, then_b, else_b } => {
            scan_expr(sym, cond, n);
            scan_stmts(sym, &then_b.stmts, n);
            match else_b {
                Some(b) => scan_stmts(sym, &b.stmts, n),
                None => {},
            }
        },
        HStmt::While { cond, body } => {
            scan_expr(sym, cond, n);
            scan_stmts(sym, &body.stmts, n);
        },
        HStmt::Block(b) => scan_stmts(sym, &b.stmts, n),
        HStmt::Unsafe(b) => scan_stmts(sym, &b.stmts, n),
        HStmt::Break | HStmt::Continue => {},
        HStmt::ForC { init, cond, step, body } => {
            scan_stmt(sym, init, n);
            scan_expr(sym, cond, n);
            scan_stmt(sym, step, n);
            scan_stmts(sym, &body.stmts, n);
        },
        HStmt::ForEach { src, body, .. } => {
            scan_expr(sym, src, n);
            scan_stmts(sym, &body.stmts, n);
        },
        HStmt::Propagate { value } => match value {
            Some(e) => scan_expr(sym, e, n),
            None => {},
        },
    }
}

fn scan_stmts<'a>(sym: &SymTab, v: &'a Vec<HStmt>, n: &mut Notes<'a>)
    requires
        old(n).wf(),
        scan_stmts_ok(*sym, *v, v@.len()),
    ensures
        final(n).wf(),
        final(n).noted() == scanned_stmts(*sym, *v, v@.len(), old(n).noted()),
    decreases v, v@.len(),
{
    let mut i: usize = 0;
    while i < v.len()
        invariant
            i <= v@.len(),
            n.wf(),
            scan_stmts_ok(*sym, *v, v@.len()),
            n.noted() == scanned_stmts(*sym, *v, i as nat, old(n).noted()),
        decreases v@.len() - i,
    {
        proof {
            lemma_scan_stmts_ok(*sym, *v, v@.len(), i as int);
        }
        scan_stmt(sym, &v[i], n);
        i += 1;
    }
}

/// The types of the function's locals, its return type and those in its body can be noted.
pub open spec fn scan_func_ok(sym: SymTab, f: HFunc) -> bool {
    &&& forall|i: int| 0 <= i < f.locals@.len() ==> note_ok(sym, (#[trigger] f.locals@[i]).ty)
    &&& note_ok(sym, f.ret)
    &&& scan_stmts_ok(sym, f.body.stmts, f.body.stmts@.len())
}

/// What is known after the types of the first `k` locals were seen.
pub open spec fn scanned_locals(sym: SymTab, locals: Seq<LocalInfo>, k: nat, n: Noted) -> Noted
    decreases k,
{
    if k == 0 || k > locals.len() {
        n
    } else {
        note_c(sym, locals[k - 1].ty, scanned_locals(sym, locals, (k - 1) as nat, n))
    }
}

/// What is known after the function was seen.
pub open spec fn scanned_func(sym: SymTab, f: HFunc, n: Noted) -> Noted {
    scanned_stmts(
        sym,
        f.body.stmts,
        f.body.stmts@.len(),
        note_c(sym, f.ret, scanned_locals(sym, f.locals@, f.locals@.len(), n)),
    )
}

/// Notes the types and values in a function.
pub fn scan_func<'a>(sym: &SymTab, f: &'a HFunc, n: &mut Notes<'a>)
    requires
        old(n).wf(),
        scan_func_ok(*sym, *f),
    ensures
        final(n).wf(),
        final(n).noted() == scanned_func(*sym, *f, old(n).noted()),
{
    let mut i: usize = 0;
    while i < f.locals.len()
        invariant
            i <= f.locals@.len(),
            n.wf(),
            scan_func_ok(*sym, *f),
            n.noted() == scanned_locals(*sym, f.locals@, i as nat, old(n).noted()),
        decreases f.locals@.len() - i,
    {
        note_type(sym, &f.locals[i].ty, n);
        i += 1;
    }
    note_type(sym, &f.ret, n);
    scan_stmts(sym, &f.body.stmts, n);
}

} // verus!
