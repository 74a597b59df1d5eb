//! A small expression language with two evaluation strategies over one
//! syntax tree: direct interpretation, and staging into a tree that can be
//! run repeatedly against an arena of variable cells.

mod cells;
mod exp;
mod interp;
mod laws;
mod staged;
mod value;

pub use cells::Cells;
pub use exp::{
    add_exp, kind_of, less_than_exp, let_exp, refs_kinded, scoped, unit_exp, var_exp, Exp, Scope,
    VarRef,
};
pub use interp::{eval, lookup};
pub use laws::{
    bindings_agree, bindings_kinded, lemma_add_constants, lemma_eval_kind_in, lemma_interpret_kind,
    lemma_less_constants, lemma_lookup_agrees, lemma_rerun_same, lemma_run_matches_eval,
    lemma_stage_run_agrees,
};
pub use staged::{names_of, run_spec, stage_spec, Staged};
pub use value::{Kind, Value};
