//! A boundary layer between a dynamically typed host and native code:
//! values that cross it (`value`), the binding of a call's arguments to a
//! declared signature (`call`), and the objects and functions exposed
//! through it (`shop`, `self_defense`, `sketches`).
use vstd::prelude::*;

pub mod text;
pub mod value;
pub mod call;
pub mod shop;
pub mod self_defense;
pub mod sketches;

verus! {

} // verus!
