//! Typed function calls.

use vstd::prelude::*;

verus! {

/// A function call whose arguments have been parsed into `T`.
#[derive(Debug)]
pub struct FunctionCall<T> {
    pub name: String,
    pub parameters: T,
}

} // verus!
