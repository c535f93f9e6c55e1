use vstd::prelude::*;

pub mod compiler;
pub mod error;
pub mod git;
pub mod text;
pub mod ts;
pub mod version;

verus! {

} // verus!
