//! Writing whole functions.
use vstd::prelude::*;

use crate::analysis::BceBound;
use crate::context::{Cx, Lowering, Out, St, State};
use crate::ctypes;
use crate::ctypes::{c_type, func_signature, local_name};
use crate::hir::{FuncSig, HFunc, HType, LocalId, LocalInfo, StructId, StructInfo, SymTab};
use crate::lowered;
use crate::sorted::SortedMap;
use crate::text;
use crate::text::{c_ident, cat2, cat5, cat6, deeper, line, own, starts_with, str_eq};
use crate::validity;

verus! {

/// The struct that holds what a lifted lambda captures: what its first parameter refers to.
pub open spec fn env_struct_of(f: HFunc) -> Option<StructId> {
    if f.params@.len() == 0 {
        None
    } else {
        match f.locals@[f.params@[0].0 as int].ty {
            HType::Ref { inner, .. } => match *inner {
                HType::Struct(id) => Some(id),
                _ => None,
            },
            _ => None,
        }
    }
}

/// The environment that the function unpacks on entry.
pub open spec fn unpacked_env(sig: FuncSig, f: HFunc) -> Option<StructId> {
    if text::begins(sig.name@, "__lambda_cap_"@) { env_struct_of(f) } else { None }
}

/// The environment holds the local.
pub open spec fn is_captured(env: StructInfo, name: Seq<char>) -> bool {
    exists|i: int| 0 <= i < env.fields@.len() && (#[trigger] env.fields@[i]).name@ == name
}

fn captures(env: &StructInfo, name: &str) -> (r: bool)
    ensures
        r == is_captured(*env, name@),
{
    let total: usize = env.fields.len();
    let mut i: usize = 0;
    while i < total
        invariant
            i <= total,
            total == env.fields@.len(),
            forall|j: int| 0 <= j < i ==> (#[trigger] env.fields@[j]).name@ != name@,
        decreases total - i,
    {
        if str_eq(&env.fields[i].name, name) {
            assert(env.fields@[i as int].name@ == name@);
            return true;
        }
        i += 1;
    }
    false
}

/// The first local after the parameters.
pub open spec fn first_capture(f: HFunc) -> u32 {
    if f.params@.len() == 0 { 0 } else { f.params@.last().0.wrapping_add(1) }
}

/// How many locals have a number.
pub open spec fn numbered_locals(f: HFunc) -> u32 {
    f.locals@.len() as u32
}

/// Copies the captured locals from `from` up to `n` out of the environment.
pub open spec fn captures_c(
    sym: SymTab,
    f: HFunc,
    env: StructInfo,
    ind: Seq<char>,
    from: nat,
    n: nat,
) -> Seq<char>
    decreases n,
{
    if n <= from {
        ""@
    } else {
        let before = captures_c(sym, f, env, ind, from, (n - 1) as nat);
        let li = f.locals@[n - 1];
        if is_captured(env, li.name@) {
            before + text::line_c(
                ind,
                ctypes::ty_c(sym, li.ty) + " "@ + ctypes::local_c(LocalId((n - 1) as u32), li.name@)
                    + " = __env_0->"@ + text::ident(li.name@) + ";"@,
            )
        } else {
            before
        }
    }
}

/// The captured locals have types that C can spell.
pub open spec fn captures_ok(sym: SymTab, f: HFunc, env: StructInfo) -> bool {
    forall|i: int|
        first_capture(f) <= i < numbered_locals(f) && is_captured(
            env,
            (#[trigger] f.locals@[i]).name@,
        ) ==> ctypes::ty_ok(sym, f.locals@[i].ty)
}

fn unpack(sym: &SymTab, f: &HFunc, env: &StructInfo, ind: &str) -> (r: String)
    requires
        captures_ok(*sym, *f, *env),
    ensures
        r@ == captures_c(
            *sym,
            *f,
            *env,
            ind@,
            first_capture(*f) as nat,
            numbered_locals(*f) as nat,
        ),
{
    let total: usize = f.locals.len();
    let to: u32 = total as u32;
    let from: u32 = if f.params.len() == 0 {
        0
    } else {
        f.params[f.params.len() - 1].0.wrapping_add(1)
    };
    assert(to <= total) by {
        let n: usize = total;
        assert(n as u32 <= n) by (bit_vector);
    }
    let mut out: String = own("");
    if from >= to {
        return out;
    }
    let mut i: u32 = from;
    while i < to
        invariant
            from <= i <= to,
            to <= f.locals.len(),
            from == first_capture(*f),
            to == numbered_locals(*f),
            captures_ok(*sym, *f, *env),
            out@ == captures_c(*sym, *f, *env, ind@, from as nat, i as nat),
        decreases to - i,
    {
        let li: &LocalInfo = &f.locals[i as usize];
        if captures(env, &li.name) {
            assert(is_captured(*env, f.locals@[i as int].name@));
            let text: String = cat6(
                &c_type(sym, &li.ty),
                " ",
                &local_name(LocalId(i), &li.name),
                " = __env_0->",
                &c_ident(&li.name),
                ";",
            );
            out.append(&line(ind, &text));
        }
        i += 1;
    }
    out
}

/// The context of a function body.
pub open spec fn body_cx(sym: SymTab, owns: Set<Seq<char>>, f: HFunc) -> Cx {
    Cx { sym, owns, f, tag: None, wanted: false, ind: text::deeper_c(""@), bounded: Seq::empty() }
}

/// The function can be written.
pub open spec fn func_ok(d: nat, sym: SymTab, f: HFunc) -> bool {
    &&& sym.has_sig(f.id)
    &&& !sym.the_sig(f.id).is_inline ==> {
        &&& ctypes::signature_ok(sym, f)
        &&& match unpacked_env(sym.the_sig(f.id), f) {
            Some(id) => sym.has_struct(id) && captures_ok(sym, f, sym.the_struct(id)),
            None => true,
        }
        &&& validity::block_ok(d, sym, f, f.body)
    }
}

/// A function definition. Inline functions have none: each call carries the body.
pub open spec fn func_c(d: nat, sym: SymTab, owns: Set<Seq<char>>, st: St, f: HFunc) -> Out {
    let sig = sym.the_sig(f.id);
    if sig.is_inline {
        Out { text: ""@, st }
    } else {
        let cx = body_cx(sym, owns, f);
        let unpacked = match unpacked_env(sig, f) {
            Some(id) => captures_c(
                sym,
                f,
                sym.the_struct(id),
                cx.ind,
                first_capture(f) as nat,
                numbered_locals(f) as nat,
            ),
            None => ""@,
        };
        let b = lowered::block_c(d, cx, st, f.body);
        lowered::with_text(
            b,
            text::line_c(""@, ctypes::signature_c(sym, f) + " {"@) + unpacked + b.text + text::line_c(""@, "}"@)
                + text::line_c(""@, ""@),
        )
    }
}

/// Writes a function definition.
pub(crate) fn emit_func(
    sym: &SymTab,
    owns: &SortedMap<String, ()>,
    st: &mut State,
    Ghost(d): Ghost<nat>,
    f: &HFunc,
) -> (r: String)
    requires
        owns.wf(),
        old(st).wf(),
        func_ok(d, *sym, *f),
    ensures
        final(st).wf(),
        (Out { text: r@, st: final(st).st() }) == func_c(d, *sym, owns.dom(), old(st).st(), *f),
{
    let sig: &FuncSig = sym.func_sig(f.id);
    if sig.is_inline {
        return own("");
    }
    let ind: String = deeper("");
    let env: Option<StructId> = if starts_with(&sig.name, "__lambda_cap_") && f.params.len() > 0 {
        match &f.locals[f.params[0].0 as usize].ty {
            HType::Ref { inner, .. } => match &**inner {
                HType::Struct(id) => Some(*id),
                _ => None,
            },
            _ => None,
        }
    } else {
        None
    };
    assert(env == unpacked_env(*sig, *f));
    let unpacked: String = match env {
        Some(id) => unpack(sym, f, sym.struct_info(id), &ind),
        None => own(""),
    };
    let none: Vec<(u32, BceBound)> = Vec::new();
    let cx: Lowering = Lowering { sym, owns, f, tag: None, wanted: false, ind: &ind, bounded: &none };
    assert(cx.cx() == body_cx(*sym, owns.dom(), *f)) by {
        assert(none@ =~= Seq::<(u32, BceBound)>::empty());
    }
    let b: String = cx.emit_block(st, Ghost(d), &f.body);
    cat5(
        &line("", &cat2(&func_signature(sym, f), " {")),
        &unpacked,
        &b,
        &line("", "}"),
        &line("", ""),
    )
}

} // verus!
