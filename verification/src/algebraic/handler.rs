//! Handlers: what runs a computation and answers its requests.

use vstd::prelude::*;
use crate::algebraic::eff::{Eff, Program};
use crate::algebraic::effect::{Effect, NoEffect};

verus! {

/// Something that runs computations of effect `E` producing `A`, held in
/// programs of type `P`, and turns them into a final output.
pub trait Handler<E: Effect, A, P: Program<E, A>>: Sized {
    /// What running a computation gives.
    type Output;

    /// `output` is what this handler may give for `computation`.
    spec fn delivers(&self, computation: Eff<E, A, P>, output: Self::Output) -> bool;

    /// Runs `computation`.
    fn run(self, computation: Eff<E, A, P>) -> (output: Self::Output)
        requires
            computation.well_formed(),
        ensures
            self.delivers(computation, output),
    ;
}

/// The handler of computations that request nothing: it returns their value.
#[derive(Debug, Clone, Copy, Default)]
pub struct PureHandler;

impl PureHandler {
    /// The handler.
    pub fn new() -> (handler: Self) {
        PureHandler
    }
}

impl<A, P: Program<NoEffect, A>> Handler<NoEffect, A, P> for PureHandler {
    type Output = A;

    open spec fn delivers(&self, computation: Eff<NoEffect, A, P>, output: A) -> bool {
        computation.outcome((), Ok(output), ())
    }

    fn run(self, computation: Eff<NoEffect, A, P>) -> (output: A) {
        PureHandler::run(self, computation)
    }
}

impl PureHandler {
    /// Gives the value of `computation`; [`Handler::run`] for this handler,
    /// with its contract stated over the computation's outcomes.
    pub fn run<A, P: Program<NoEffect, A>>(self, computation: Eff<NoEffect, A, P>) -> (output: A)
        requires
            computation.well_formed(),
        ensures
            computation.outcome((), Ok(output), ()),
    {
        let (result, _) = computation.run_in(());
        match result {
            Ok(value) => value,
            Err(never) => {
                proof {
                    use_type_invariant(&never);
                }
                never.absurd()
            },
        }
    }
}

/// Two handlers kept together, for computations of two effects.
#[derive(Debug, Clone)]
pub struct ComposedHandler<H1, H2> {
    first: H1,
    second: H2,
}

impl<H1, H2> ComposedHandler<H1, H2> {
    /// The first handler.
    pub closed spec fn first_handler(&self) -> H1 {
        self.first
    }

    /// The second handler.
    pub closed spec fn second_handler(&self) -> H2 {
        self.second
    }

    /// Keeps `first` and `second` together.
    pub fn new(first: H1, second: H2) -> (handler: Self)
        ensures
            handler.first_handler() == first,
            handler.second_handler() == second,
    {
        ComposedHandler { first, second }
    }

    /// The first handler.
    pub fn first(&self) -> (handler: &H1)
        ensures
            *handler == self.first_handler(),
    {
        &self.first
    }

    /// The second handler.
    pub fn second(&self) -> (handler: &H2)
        ensures
            *handler == self.second_handler(),
    {
        &self.second
    }

    /// Separates the two handlers.
    pub fn into_parts(self) -> (parts: (H1, H2))
        ensures
            parts == (self.first_handler(), self.second_handler()),
    {
        (self.first, self.second)
    }
}

} // verus!
