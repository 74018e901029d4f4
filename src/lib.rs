//! A small PLONK-style constraint-system core: columns, selector-guarded
//! gates, region-based witness assignment with copy constraints and
//! public-input bindings, and a satisfiability checker that reports every
//! violation of a witness.
use vstd::prelude::*;

pub mod circuit;
pub mod field;
pub mod laws;
pub mod satisfy;
pub mod table;
pub mod wallet;

verus! {

} // verus!
