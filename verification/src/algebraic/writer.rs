//! The writer effect: computations that append to an output log.

use vstd::prelude::*;
use core::marker::PhantomData;
use crate::algebraic::eff::{Done, Eff, Program, Sequenced};
use crate::algebraic::effect::{Effect, Never};
use crate::algebraic::handler::Handler;
use crate::typeclass::Monoid;

verus! {

/// The effect of computations that append to a log of type `W`.
#[derive(Debug)]
pub struct WriterEffect<W>(pub PhantomData<W>);

impl<W> Clone for WriterEffect<W> {
    fn clone(&self) -> (copy: Self) {
        WriterEffect(PhantomData)
    }
}

impl<W> Copy for WriterEffect<W> {}

impl<W> Effect for WriterEffect<W> {
    type Context = W;
    type Abort = Never;

    fn name() -> (name: &'static str)
        ensures
            name@ == "Writer"@,
    {
        "Writer"
    }
}

/// The request to append `output` to the log.
pub struct Tell<W> {
    /// What is appended.
    pub output: W,
}

impl<W: Monoid> Program<WriterEffect<W>, ()> for Tell<W> {
    open spec fn well_formed(&self) -> bool {
        true
    }

    open spec fn outcome(&self, before: W, result: Result<(), Never>, after: W) -> bool {
        result == Ok::<(), Never>(()) && before.combined(self.output, after)
    }

    open spec fn is_value(&self) -> bool {
        false
    }

    fn holds_value(&self) -> (b: bool) {
        false
    }

    fn take_value(self) -> (held: Result<(), Self>) {
        Err(self)
    }

    fn execute(self, context: W) -> (out: (Result<(), Never>, W)) {
        (Ok(()), context.combine(self.output))
    }
}

impl<W: Monoid> WriterEffect<W> {
    /// The computation that appends `output` to the log.
    pub fn tell(output: W) -> (eff: Eff<Self, (), Tell<W>>)
        ensures
            eff.well_formed(),
            forall|before: W, result: Result<(), Never>, after: W| #[trigger] eff.outcome(before, result, after)
                <==> (result == Ok::<(), Never>(()) && before.combined(output, after)),
    {
        Eff::new(Tell { output })
    }
}

/// The handler of the writer effect: it starts from the empty log and
/// gives the value together with the log.
#[derive(Debug)]
pub struct WriterHandler<W>(pub PhantomData<W>);

impl<W> Clone for WriterHandler<W> {
    fn clone(&self) -> (copy: Self) {
        WriterHandler(PhantomData)
    }
}

impl<W> WriterHandler<W> {
    /// The handler.
    pub fn new() -> (handler: Self) {
        WriterHandler(PhantomData)
    }
}

impl<W: Monoid, A, P: Program<WriterEffect<W>, A>> Handler<WriterEffect<W>, A, P> for WriterHandler<W> {
    type Output = (A, W);

    open spec fn delivers(&self, computation: Eff<WriterEffect<W>, A, P>, output: (A, W)) -> bool {
        exists|start: W| #[trigger] start.is_unit() && computation.outcome(start, Ok(output.0), output.1)
    }

    fn run(self, computation: Eff<WriterEffect<W>, A, P>) -> (output: (A, W))
        ensures
            exists|start: W| #[trigger] start.is_unit() && computation.outcome(start, Ok(output.0), output.1),
    {
        WriterHandler::run(self, computation)
    }
}

impl<W: Monoid> WriterHandler<W> {
    /// Runs `computation` from the empty log and gives its value together
    /// with the log it wrote; [`Handler::run`] for this handler, with its
    /// contract stated over the computation's outcomes.
    pub fn run<A, P: Program<WriterEffect<W>, A>>(self, computation: Eff<WriterEffect<W>, A, P>) -> (output: (A, W))
        requires
            computation.well_formed(),
        ensures
            exists|start: W| #[trigger] start.is_unit() && computation.outcome(start, Ok(output.0), output.1),
    {
        let start = W::empty();
        let ghost start0 = start;
        let (result, log) = computation.run_in(start);
        match result {
            Ok(value) => {
                assert(start0.is_unit() && computation.outcome(start0, Ok(value), log));
                (value, log)
            },
            Err(never) => {
                proof {
                    use_type_invariant(&never);
                }
                never.absurd()
            },
        }
    }
}

/// Runs `computation` at once from the empty log, and gives the computation
/// that appends the log it wrote and produces its value together with that
/// log.
pub fn listen<W: Monoid + Clone, A, P: Program<WriterEffect<W>, A>>(computation: Eff<WriterEffect<W>, A, P>) -> (eff: Eff<WriterEffect<W>, (A, W), Sequenced<(), Tell<W>, Done<(A, W)>>>)
    requires
        computation.well_formed(),
    ensures
        eff.well_formed(),
        exists|start: W, value: A, log: W, copy: W| start.is_unit() && #[trigger] computation.outcome(start, Ok(value), log)
            && #[trigger] cloned(log, copy) && forall|before: W, result: Result<(A, W), Never>, after: W|
                #[trigger] eff.outcome(before, result, after) ==> result == Ok::<(A, W), Never>((value, log)) && before.combined(copy, after),
{
    let (value, log) = WriterHandler::new().run(computation);
    let copy = log.clone();
    let told = WriterEffect::tell(copy);
    let done = Eff::<WriterEffect<W>, (A, W), Done<(A, W)>>::pure((value, log));
    let eff = Eff::new(Sequenced::Both { first: told.into_program(), second: done.into_program(), discarded: PhantomData });
    let ghost start = choose|start: W| start.is_unit() && #[trigger] computation.outcome(start, Ok(value), log);
    assert forall|before: W, result: Result<(A, W), Never>, after: W|
        #[trigger] eff.outcome(before, result, after) implies result == Ok::<(A, W), Never>((value, log)) && before.combined(copy, after) by {
        if exists|stop: Never| #[trigger] told.outcome(before, Err(stop), after) && result == Err::<(A, W), Never>(stop) {
        } else {
            let (mid, u) = choose|mid: W, u: ()| #[trigger] told.outcome(before, Ok(u), mid) && done.outcome(mid, result, after);
        }
    }
    assert(start.is_unit() && computation.outcome(start, Ok(value), log) && cloned(log, copy));
    eff
}

} // verus!
