//! The error effect: computations that may stop with an error.

use vstd::prelude::*;
use core::marker::PhantomData;
use crate::algebraic::eff::{Done, Eff, Program};
use crate::algebraic::effect::Effect;
use crate::algebraic::handler::Handler;

verus! {

/// The effect of computations that may stop with an error of type `E`.
#[derive(Debug)]
pub struct ErrorEffect<E>(pub PhantomData<E>);

impl<E> Clone for ErrorEffect<E> {
    fn clone(&self) -> (copy: Self) {
        ErrorEffect(PhantomData)
    }
}

impl<E> Copy for ErrorEffect<E> {}

impl<E> Effect for ErrorEffect<E> {
    type Context = ();
    type Abort = E;

    fn name() -> (name: &'static str)
        ensures
            name@ == "Error"@,
    {
        "Error"
    }
}

/// The request to stop with `error`.
pub struct Throw<E, A> {
    /// The error.
    pub error: E,
    /// Marks the type of the value that is never produced.
    pub value: PhantomData<A>,
}

impl<E, A> Program<ErrorEffect<E>, A> for Throw<E, A> {
    open spec fn well_formed(&self) -> bool {
        true
    }

    open spec fn outcome(&self, before: (), result: Result<A, E>, after: ()) -> bool {
        result == Err::<A, E>(self.error)
    }

    open spec fn is_value(&self) -> bool {
        false
    }

    fn holds_value(&self) -> (b: bool) {
        false
    }

    fn take_value(self) -> (held: Result<A, Self>) {
        Err(self)
    }

    fn execute(self, context: ()) -> (out: (Result<A, E>, ())) {
        (Err(self.error), ())
    }
}

impl<E> ErrorEffect<E> {
    /// The computation that stops with `error`.
    pub fn throw<A>(error: E) -> (eff: Eff<Self, A, Throw<E, A>>)
        ensures
            eff.well_formed(),
            forall|before: (), result: Result<A, E>, after: ()| #[trigger] eff.outcome(before, result, after)
                <==> result == Err::<A, E>(error),
    {
        Eff::new(Throw { error, value: PhantomData })
    }
}

/// The handler of the error effect: it gives the value, or the error the
/// computation stopped with.
#[derive(Debug)]
pub struct ErrorHandler<E>(pub PhantomData<E>);

impl<E> Clone for ErrorHandler<E> {
    fn clone(&self) -> (copy: Self) {
        ErrorHandler(PhantomData)
    }
}

impl<E> ErrorHandler<E> {
    /// The handler.
    pub fn new() -> (handler: Self) {
        ErrorHandler(PhantomData)
    }
}

impl<E, A, P: Program<ErrorEffect<E>, A>> Handler<ErrorEffect<E>, A, P> for ErrorHandler<E> {
    type Output = Result<A, E>;

    open spec fn delivers(&self, computation: Eff<ErrorEffect<E>, A, P>, output: Result<A, E>) -> bool {
        computation.outcome((), output, ())
    }

    fn run(self, computation: Eff<ErrorEffect<E>, A, P>) -> (output: Result<A, E>) {
        ErrorHandler::run(self, computation)
    }
}

impl<E> ErrorHandler<E> {
    /// Runs `computation` and gives its value, or the error it stopped
    /// with; [`Handler::run`] for this handler, with its contract stated
    /// over the computation's outcomes.
    pub fn run<A, P: Program<ErrorEffect<E>, A>>(self, computation: Eff<ErrorEffect<E>, A, P>) -> (output: Result<A, E>)
        requires
            computation.well_formed(),
        ensures
            computation.outcome((), output, ()),
    {
        let (result, _) = computation.run_in(());
        result
    }
}

/// A program chosen when the computation is built: one of two.
pub enum Choice<P, Q> {
    /// The first program.
    First(P),
    /// The second program.
    Second(Q),
}

impl<E: Effect, A, P: Program<E, A>, Q: Program<E, A>> Program<E, A> for Choice<P, Q> {
    open spec fn well_formed(&self) -> bool {
        match self {
            Choice::First(p) => p.well_formed(),
            Choice::Second(q) => q.well_formed(),
        }
    }

    open spec fn outcome(&self, before: E::Context, result: Result<A, E::Abort>, after: E::Context) -> bool {
        match self {
            Choice::First(p) => p.outcome(before, result, after),
            Choice::Second(q) => q.outcome(before, result, after),
        }
    }

    open spec fn is_value(&self) -> bool {
        match self {
            Choice::First(p) => p.is_value(),
            Choice::Second(q) => q.is_value(),
        }
    }

    fn holds_value(&self) -> (b: bool) {
        match self {
            Choice::First(p) => p.holds_value(),
            Choice::Second(q) => q.holds_value(),
        }
    }

    fn take_value(self) -> (held: Result<A, Self>) {
        match self {
            Choice::First(p) => match p.take_value() {
                Ok(a) => Ok(a),
                Err(p) => Err(Choice::First(p)),
            },
            Choice::Second(q) => match q.take_value() {
                Ok(a) => Ok(a),
                Err(q) => Err(Choice::Second(q)),
            },
        }
    }

    fn execute(self, context: E::Context) -> (out: (Result<A, E::Abort>, E::Context)) {
        match self {
            Choice::First(p) => p.execute(context),
            Choice::Second(q) => q.execute(context),
        }
    }
}

/// Runs `computation` at once; its value is kept, and an error it stops
/// with is handed to `recovery`, whose computation takes its place.
pub fn catch<E, A, P: Program<ErrorEffect<E>, A>, Q: Program<ErrorEffect<E>, A>, F: FnOnce(E) -> Eff<ErrorEffect<E>, A, Q>>(
    computation: Eff<ErrorEffect<E>, A, P>,
    recovery: F,
) -> (eff: Eff<ErrorEffect<E>, A, Choice<Done<A>, Q>>)
    requires
        computation.well_formed(),
        forall|e: E| #[trigger] computation.outcome((), Err(e), ()) ==> recovery.requires((e,)),
        forall|e: E, next: Eff<ErrorEffect<E>, A, Q>| #[trigger] recovery.ensures((e,), next) ==> next.well_formed(),
    ensures
        eff.well_formed(),
        exists|first: Result<A, E>| #[trigger] computation.outcome((), first, ()) && match first {
            Ok(a) => eff.holds(a),
            Err(e) => exists|next: Eff<ErrorEffect<E>, A, Q>| #[trigger] recovery.ensures((e,), next) && eff.same_as(next),
        },
{
    let first = ErrorHandler::new().run(computation);
    match first {
        Ok(a) => {
            let eff = Eff::new(Choice::First(Done { value: a }));
            assert(eff.holds(a));
            eff
        },
        Err(e) => {
            let next = recovery(e);
            let ghost chosen = next;
            let eff = Eff::new(Choice::Second(next.into_program()));
            assert(recovery.ensures((e,), chosen));
            assert(eff.same_as(chosen));
            eff
        },
    }
}

/// Runs `computation` at once, and gives the computation that produces its
/// outcome: its value, or the error it stopped with.
pub fn attempt<E, A, P: Program<ErrorEffect<E>, A>>(computation: Eff<ErrorEffect<E>, A, P>) -> (eff: Eff<ErrorEffect<E>, Result<A, E>, Done<Result<A, E>>>)
    requires
        computation.well_formed(),
    ensures
        eff.well_formed(),
        exists|first: Result<A, E>| #[trigger] computation.outcome((), first, ()) && eff.holds(first),
{
    let first = ErrorHandler::new().run(computation);
    let eff = Eff::pure(first);
    assert(computation.outcome((), first, ()));
    eff
}

} // verus!
