use vstd::prelude::*;

pub mod font;
pub mod machine;
pub mod interpreter;
pub mod laws;
pub mod op;
pub mod screen;

verus! {

} // verus!
