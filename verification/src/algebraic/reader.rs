//! The reader effect: computations that read an environment.

use vstd::prelude::*;
use core::marker::PhantomData;
use crate::algebraic::eff::{Eff, Mapped, Program};
use crate::algebraic::effect::{Effect, Never};
use crate::algebraic::handler::Handler;

verus! {

/// The effect of computations that read an environment of type `R`.
#[derive(Debug, PartialEq, Eq, Hash)]
pub struct ReaderEffect<R>(pub PhantomData<R>);

impl<R> Clone for ReaderEffect<R> {
    fn clone(&self) -> (copy: Self) {
        ReaderEffect(PhantomData)
    }
}

impl<R> Copy for ReaderEffect<R> {}

impl<R> Effect for ReaderEffect<R> {
    type Context = R;
    type Abort = Never;

    fn name() -> (name: &'static str)
        ensures
            name@ == "Reader"@,
    {
        "Reader"
    }
}

/// The request for (a clone of) the environment.
pub struct AskEnvironment<R> {
    /// Marks the environment type.
    pub environment: PhantomData<R>,
}

impl<R: Clone> Program<ReaderEffect<R>, R> for AskEnvironment<R> {
    open spec fn well_formed(&self) -> bool {
        true
    }

    open spec fn outcome(&self, before: R, result: Result<R, Never>, after: R) -> bool {
        result matches Ok(v) && cloned(before, v) && after == before
    }

    open spec fn is_value(&self) -> bool {
        false
    }

    fn holds_value(&self) -> (b: bool) {
        false
    }

    fn take_value(self) -> (held: Result<R, Self>) {
        Err(self)
    }

    fn execute(self, context: R) -> (out: (Result<R, Never>, R)) {
        let value = context.clone();
        (Ok(value), context)
    }
}

impl<R: Clone> ReaderEffect<R> {
    /// The computation that produces (a clone of) the environment.
    pub fn ask() -> (eff: Eff<Self, R, AskEnvironment<R>>)
        ensures
            eff.well_formed(),
            forall|before: R, result: Result<R, Never>, after: R| #[trigger] eff.outcome(before, result, after)
                <==> (result matches Ok(v) && cloned(before, v) && after == before),
    {
        Eff::new(AskEnvironment { environment: PhantomData })
    }

    /// The computation that produces what `projection` makes of the environment.
    pub fn asks<A, F: FnOnce(R) -> A>(projection: F) -> (eff: Eff<Self, A, Mapped<R, A, AskEnvironment<R>, F>>)
        requires
            forall|r: R| #[trigger] projection.requires((r,)),
        ensures
            eff.well_formed(),
            forall|before: R, result: Result<A, Never>, after: R| #[trigger] eff.outcome(before, result, after) ==>
                after == before && exists|v: R, a: A| cloned(before, v) && #[trigger] projection.ensures((v,), a) && result == Ok::<A, Never>(a),
    {
        let asked = Self::ask();
        let eff = asked.fmap(projection);
        assert forall|before: R, result: Result<A, Never>, after: R| #[trigger] eff.outcome(before, result, after) implies
            after == before && exists|v: R, a: A| cloned(before, v) && #[trigger] projection.ensures((v,), a) && result == Ok::<A, Never>(a) by {
            if exists|stop: Never| #[trigger] asked.outcome(before, Err(stop), after) && result == Err::<A, Never>(stop) {
                let stop = choose|stop: Never| #[trigger] asked.outcome(before, Err(stop), after) && result == Err::<A, Never>(stop);
            } else {
                let (v, a) = choose|v: R, a: A| #[trigger] asked.outcome(before, Ok(v), after) && #[trigger] projection.ensures((v,), a)
                    && result == Ok::<A, Never>(a);
            }
        }
        eff
    }
}

/// The handler of the reader effect: it answers every request with (a
/// clone of) `environment`.
#[derive(Debug, Clone)]
pub struct ReaderHandler<R> {
    environment: R,
}

impl<R> ReaderHandler<R> {
    /// The environment that the handler answers with.
    pub closed spec fn answers_with(&self) -> R {
        self.environment
    }

    /// A handler that answers with `environment`.
    pub fn new(environment: R) -> (handler: Self)
        ensures
            handler.answers_with() == environment,
    {
        ReaderHandler { environment }
    }

    /// The environment that the handler answers with.
    pub fn environment(&self) -> (environment: &R)
        ensures
            *environment == self.answers_with(),
    {
        &self.environment
    }

    /// Runs `computation` with the environment that `modifier` makes of
    /// (a clone of) this handler's.
    pub fn run_with_local<A, P: Program<ReaderEffect<R>, A>, F: FnOnce(R) -> R>(&self, modifier: F, computation: Eff<ReaderEffect<R>, A, P>) -> (value: A)
        where R: Clone,
        requires
            computation.well_formed(),
            forall|r: R| #[trigger] modifier.requires((r,)),
        ensures
            exists|copy: R, changed: R, after: R| cloned(self.answers_with(), copy) && #[trigger] modifier.ensures((copy,), changed)
                && #[trigger] computation.outcome(changed, Ok(value), after),
    {
        let copy = self.environment.clone();
        let changed = modifier(copy);
        let (result, after) = computation.run_in(changed);
        match result {
            Ok(value) => {
                assert(cloned(self.answers_with(), copy) && modifier.ensures((copy,), changed) && computation.outcome(changed, Ok(value), after));
                value
            },
            Err(never) => {
                proof {
                    use_type_invariant(&never);
                }
                never.absurd()
            },
        }
    }
}

impl<R, A, P: Program<ReaderEffect<R>, A>> Handler<ReaderEffect<R>, A, P> for ReaderHandler<R> {
    type Output = A;

    open spec fn delivers(&self, computation: Eff<ReaderEffect<R>, A, P>, output: A) -> bool {
        exists|after: R| computation.outcome(self.answers_with(), Ok(output), after)
    }

    fn run(self, computation: Eff<ReaderEffect<R>, A, P>) -> (output: A) {
        ReaderHandler::run(self, computation)
    }
}

impl<R> ReaderHandler<R> {
    /// Runs `computation`, answering its requests with the environment;
    /// [`Handler::run`] for this handler, with its contract stated over the
    /// computation's outcomes.
    pub fn run<A, P: Program<ReaderEffect<R>, A>>(self, computation: Eff<ReaderEffect<R>, A, P>) -> (output: A)
        requires
            computation.well_formed(),
        ensures
            exists|after: R| computation.outcome(self.answers_with(), Ok(output), after),
    {
        let ghost environment = self.answers_with();
        let (result, after) = computation.run_in(self.environment);
        match result {
            Ok(value) => {
                assert(computation.outcome(environment, Ok(value), after));
                value
            },
            Err(never) => {
                proof {
                    use_type_invariant(&never);
                }
                never.absurd()
            },
        }
    }
}

/// The program of `run_local`: runs `inner` at once-per-run on the
/// environment that `modifier` makes of the current one, then continues
/// with the computation that `continuation` chooses for its value, on the
/// current environment.
pub struct LocalRun<A, P, F, G, Q> {
    /// The function that changes the environment for `inner`.
    pub modifier: F,
    /// The computation run on the changed environment.
    pub inner: P,
    /// The continuation.
    pub continuation: G,
    /// Marks the inner value type and the next program type.
    pub types: PhantomData<(A, Q)>,
}

impl<R: Clone, A, B, P: Program<ReaderEffect<R>, A>, F: FnOnce(R) -> R, Q: Program<ReaderEffect<R>, B>, G: FnOnce(A) -> Eff<ReaderEffect<R>, B, Q>>
    Program<ReaderEffect<R>, B> for LocalRun<A, P, F, G, Q> {
    open spec fn well_formed(&self) -> bool {
        &&& forall|r: R| #[trigger] self.modifier.requires((r,))
        &&& self.inner.well_formed()
        &&& forall|r: R, a: A, r2: R| #[trigger] self.inner.outcome(r, Ok(a), r2) ==> self.continuation.requires((a,))
        &&& forall|a: A, next: Eff<ReaderEffect<R>, B, Q>| #[trigger] self.continuation.ensures((a,), next) ==> next.well_formed()
    }

    open spec fn outcome(&self, before: R, result: Result<B, Never>, after: R) -> bool {
        exists|copy: R, changed: R, a: A, inner_after: R, next: Eff<ReaderEffect<R>, B, Q>|
            cloned(before, copy) && #[trigger] self.modifier.ensures((copy,), changed)
                && #[trigger] self.inner.outcome(changed, Ok(a), inner_after)
                && #[trigger] self.continuation.ensures((a,), next) && next.outcome(before, result, after)
    }

    open spec fn is_value(&self) -> bool {
        false
    }

    fn holds_value(&self) -> (b: bool) {
        false
    }

    fn take_value(self) -> (held: Result<B, Self>) {
        Err(self)
    }

    fn execute(self, context: R) -> (out: (Result<B, Never>, R)) {
        let copy = context.clone();
        let changed = (self.modifier)(copy);
        let (inner_result, inner_after) = self.inner.execute(changed);
        match inner_result {
            Ok(a) => {
                let next = (self.continuation)(a);
                let out = next.run_in(context);
                assert(cloned(context, copy) && self.modifier.ensures((copy,), changed) && self.inner.outcome(changed, Ok(a), inner_after)
                    && self.continuation.ensures((a,), next) && next.outcome(context, out.0, out.1));
                out
            },
            Err(never) => {
                proof {
                    use_type_invariant(&never);
                }
                never.absurd()
            },
        }
    }
}

/// Runs `inner` on the environment that `modifier` makes of the current
/// one, and continues with the computation that `continuation` chooses for
/// its value, on the current environment.
pub fn run_local<R: Clone, A, B, P: Program<ReaderEffect<R>, A>, F: FnOnce(R) -> R, Q: Program<ReaderEffect<R>, B>, G: FnOnce(A) -> Eff<ReaderEffect<R>, B, Q>>(
    modifier: F,
    inner: Eff<ReaderEffect<R>, A, P>,
    continuation: G,
) -> (eff: Eff<ReaderEffect<R>, B, LocalRun<A, P, F, G, Q>>)
    requires
        forall|r: R| #[trigger] modifier.requires((r,)),
        inner.well_formed(),
        forall|r: R, a: A, r2: R| #[trigger] inner.outcome(r, Ok(a), r2) ==> continuation.requires((a,)),
        forall|a: A, next: Eff<ReaderEffect<R>, B, Q>| #[trigger] continuation.ensures((a,), next) ==> next.well_formed(),
    ensures
        eff.well_formed(),
        forall|before: R, result: Result<B, Never>, after: R| #[trigger] eff.outcome(before, result, after) <==>
            exists|copy: R, changed: R, a: A, inner_after: R, next: Eff<ReaderEffect<R>, B, Q>|
                cloned(before, copy) && #[trigger] modifier.ensures((copy,), changed)
                    && #[trigger] inner.outcome(changed, Ok(a), inner_after)
                    && #[trigger] continuation.ensures((a,), next) && next.outcome(before, result, after),
{
    let eff = Eff::new(LocalRun { modifier, inner: inner.into_program(), continuation, types: PhantomData });
    let ghost program = LocalRun { modifier, inner: inner.program(), continuation, types: PhantomData::<(A, Q)> };
    assert(eff.program() == program);
    assert forall|before: R, result: Result<B, Never>, after: R| #[trigger] eff.outcome(before, result, after) <==>
        exists|copy: R, changed: R, a: A, inner_after: R, next: Eff<ReaderEffect<R>, B, Q>|
            cloned(before, copy) && #[trigger] modifier.ensures((copy,), changed)
                && #[trigger] inner.outcome(changed, Ok(a), inner_after)
                && #[trigger] continuation.ensures((a,), next) && next.outcome(before, result, after) by {
        if eff.outcome(before, result, after) {
            let (copy, changed, a, inner_after, next) = choose|copy: R, changed: R, a: A, inner_after: R, next: Eff<ReaderEffect<R>, B, Q>|
                cloned(before, copy) && #[trigger] program.modifier.ensures((copy,), changed)
                    && #[trigger] program.inner.outcome(changed, Ok(a), inner_after)
                    && #[trigger] program.continuation.ensures((a,), next) && next.outcome(before, result, after);
            assert(inner.outcome(changed, Ok(a), inner_after));
        }
        if exists|copy: R, changed: R, a: A, inner_after: R, next: Eff<ReaderEffect<R>, B, Q>|
            cloned(before, copy) && #[trigger] modifier.ensures((copy,), changed)
                && #[trigger] inner.outcome(changed, Ok(a), inner_after)
                && #[trigger] continuation.ensures((a,), next) && next.outcome(before, result, after) {
            let (copy, changed, a, inner_after, next) = choose|copy: R, changed: R, a: A, inner_after: R, next: Eff<ReaderEffect<R>, B, Q>|
                cloned(before, copy) && #[trigger] modifier.ensures((copy,), changed)
                    && #[trigger] inner.outcome(changed, Ok(a), inner_after)
                    && #[trigger] continuation.ensures((a,), next) && next.outcome(before, result, after);
            assert(cloned(before, copy) && program.modifier.ensures((copy,), changed)
                && program.inner.outcome(changed, Ok(a), inner_after)
                && program.continuation.ensures((a,), next) && next.outcome(before, result, after));
            assert(program.outcome(before, result, after));
        }
    }
    eff
}

} // verus!
