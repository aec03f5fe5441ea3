//! C code generation for the Maka language.
//!
//! A module of resolved and typed functions becomes one portable C translation unit.
//! Owned heap values are `T*` from `malloc` with a single owner; they are released
//! where their scope ends unless they were moved.
pub mod analysis;
pub mod bounds_laws;
pub mod builtin_laws;
pub mod builtins;
pub mod change_laws;
pub mod checks_kept;
pub mod context;
pub mod control_laws;
pub mod ctypes;
pub mod data_laws;
pub mod declaration_laws;
pub mod definitions;
pub mod depth_laws;
pub mod dispatch;
pub mod drops;
pub mod effect_laws;
pub mod expansion_laws;
pub mod expressions;
pub mod frames;
pub mod functions;
pub mod further_laws;
pub mod hir;
pub mod index_laws;
pub mod inlining;
pub mod layout;
pub mod lowered;
pub mod lowering_laws;
pub mod match_laws;
pub mod matches;
pub mod module;
pub mod module_laws;
pub mod object_laws;
pub mod operator_laws;
pub mod operators;
pub mod order_laws;
pub mod ownership_laws;
pub mod patterns;
pub mod pieces;
pub mod places;
pub mod release_laws;
pub mod runtime;
pub mod scan;
pub mod scan_laws;
pub mod sorted;
pub mod spare_depth;
pub mod statement_laws;
pub mod statements;
pub mod text;
pub mod typedefs;
pub mod validity;
pub mod value_laws;
pub mod values;
pub mod vector_laws;

use vstd::prelude::*;

use crate::hir::HirModule;
use crate::module::emit_module;

verus! {

/// The C text of a program that runs on an operating system.
pub fn emit(m: &HirModule) -> (r: String)
    requires
        module::module_ok(*m, false),
    ensures
        r@ == module::module_c(*m, false),
        module::typedefs_there(m.sym, module::module_notes(m.sym, false), r@),
        module::uses_there(m.sym, module::module_notes(m.sym, false), r@),
{
    emit_module(m, false)
}

/// The C text of a module that runs without a C library: memory, logging and panics go
/// through functions that the surrounding system provides.
pub fn emit_freestanding(m: &HirModule) -> (r: String)
    requires
        module::module_ok(*m, true),
    ensures
        r@ == module::module_c(*m, true),
        module::typedefs_there(m.sym, module::module_notes(m.sym, true), r@),
        module::uses_there(m.sym, module::module_notes(m.sym, true), r@),
{
    emit_module(m, true)
}

} // verus!
