//! Interfaces of monads with an environment, a state or an output log,
//! for types to implement.

use vstd::prelude::*;
use crate::typeclass::Monoid;

verus! {

/// Monads that read an environment of type `R`.
pub trait MonadReader<R>: Sized {
    /// The computation that produces the environment.
    fn ask() -> Self;

    /// Runs `computation` on the environment changed by `modifier`.
    fn local<F: FnOnce(R) -> R>(modifier: F, computation: Self) -> Self;
}

/// Monads that carry a state of type `S`.
pub trait MonadState<S>: Sized {
    /// A computation that produces nothing of interest.
    type Unit;

    /// The computation that produces the state.
    fn get() -> Self;

    /// The computation that replaces the state by `state`.
    fn put(state: S) -> Self::Unit;

    /// The computation that replaces the state by what `modifier` makes of it.
    fn modify<F: FnOnce(S) -> S>(modifier: F) -> Self::Unit;
}

/// Monads that append to an output log of type `W`.
pub trait MonadWriter<W: Monoid>: Sized {
    /// A computation that produces nothing of interest.
    type Unit;

    /// The computation that appends `output` to the log.
    fn tell(output: W) -> Self::Unit;
}

} // verus!
