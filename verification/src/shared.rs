//! Shared ownership of a value that several computations use.

use vstd::prelude::*;
use std::rc::Rc;

verus! {

/// Another handle to the value behind `shared`.
///
/// Calls std's `Rc::clone`, which, as its documentation says, makes a new
/// pointer to the same allocation and copies nothing; the contract states
/// that the new handle holds the same value.
#[verifier::external_body]
pub fn share<T>(shared: &Rc<T>) -> (other: Rc<T>)
    ensures
        other == *shared,
{
    Rc::clone(shared)
}

} // verus!
