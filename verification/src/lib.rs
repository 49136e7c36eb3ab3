use vstd::prelude::*;

pub mod collider;
pub mod simplex;
pub mod regions;
pub mod control;
pub mod text;
pub mod obj;

verus! {
} // verus!
