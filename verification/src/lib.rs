//! Synthetic tabular data toolkit: column-type parsing, collision-free
//! output naming, random row generation and CSV rendering.

pub mod coltype;
pub mod csvout;
pub mod naming;
pub mod rowgen;
pub mod text;
pub mod usage;

use vstd::prelude::*;

verus! {

} // verus!
