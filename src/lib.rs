use vstd::prelude::*;

pub mod bridge;
pub mod error;
pub mod session;
pub mod shell;
pub mod utf8;

verus! {

} // verus!
