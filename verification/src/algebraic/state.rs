//! The state effect: computations that read and replace a state.

use vstd::prelude::*;
use core::marker::PhantomData;
use crate::algebraic::eff::{Eff, Program};
use crate::algebraic::effect::{Effect, Never};
use crate::algebraic::handler::Handler;

verus! {

/// The effect of computations with a state of type `S`.
#[derive(Debug, PartialEq, Eq, Hash)]
pub struct StateEffect<S>(pub PhantomData<S>);

impl<S> Clone for StateEffect<S> {
    fn clone(&self) -> (copy: Self) {
        StateEffect(PhantomData)
    }
}

impl<S> Copy for StateEffect<S> {}

impl<S> Effect for StateEffect<S> {
    type Context = S;
    type Abort = Never;

    fn name() -> (name: &'static str)
        ensures
            name@ == "State"@,
    {
        "State"
    }
}

/// The request for (a clone of) the state.
pub struct GetState<S> {
    /// Marks the state type.
    pub state: PhantomData<S>,
}

impl<S: Clone> Program<StateEffect<S>, S> for GetState<S> {
    open spec fn well_formed(&self) -> bool {
        true
    }

    open spec fn outcome(&self, before: S, result: Result<S, Never>, after: S) -> bool {
        result matches Ok(v) && cloned(before, v) && after == before
    }

    open spec fn is_value(&self) -> bool {
        false
    }

    fn holds_value(&self) -> (b: bool) {
        false
    }

    fn take_value(self) -> (held: Result<S, Self>) {
        Err(self)
    }

    fn execute(self, context: S) -> (out: (Result<S, Never>, S)) {
        let value = context.clone();
        (Ok(value), context)
    }
}

/// The request to replace the state by `state`.
pub struct PutState<S> {
    /// The new state.
    pub state: S,
}

impl<S> Program<StateEffect<S>, ()> for PutState<S> {
    open spec fn well_formed(&self) -> bool {
        true
    }

    open spec fn outcome(&self, before: S, result: Result<(), Never>, after: S) -> bool {
        result == Ok::<(), Never>(()) && after == self.state
    }

    open spec fn is_value(&self) -> bool {
        false
    }

    fn holds_value(&self) -> (b: bool) {
        false
    }

    fn take_value(self) -> (held: Result<(), Self>) {
        Err(self)
    }

    fn execute(self, context: S) -> (out: (Result<(), Never>, S)) {
        (Ok(()), self.state)
    }
}

/// The request to replace the state by what `modifier` makes of a clone of it.
pub struct ModifyState<S, F> {
    /// The function that makes the new state.
    pub modifier: F,
    /// Marks the state type.
    pub state: PhantomData<S>,
}

impl<S: Clone, F: FnOnce(S) -> S> Program<StateEffect<S>, ()> for ModifyState<S, F> {
    open spec fn well_formed(&self) -> bool {
        forall|s: S| #[trigger] self.modifier.requires((s,))
    }

    open spec fn outcome(&self, before: S, result: Result<(), Never>, after: S) -> bool {
        result == Ok::<(), Never>(()) && exists|s: S| cloned(before, s) && #[trigger] self.modifier.ensures((s,), after)
    }

    open spec fn is_value(&self) -> bool {
        false
    }

    fn holds_value(&self) -> (b: bool) {
        false
    }

    fn take_value(self) -> (held: Result<(), Self>) {
        Err(self)
    }

    fn execute(self, context: S) -> (out: (Result<(), Never>, S)) {
        let current = context.clone();
        let after = (self.modifier)(current);
        assert(cloned(context, current) && self.modifier.ensures((current,), after));
        (Ok(()), after)
    }
}

/// The request for a value that `projection` takes from a clone of the state.
pub struct GetsState<S, F> {
    /// The function that takes the value.
    pub projection: F,
    /// Marks the state type.
    pub state: PhantomData<S>,
}

impl<S: Clone, A, F: FnOnce(&S) -> A> Program<StateEffect<S>, A> for GetsState<S, F> {
    open spec fn well_formed(&self) -> bool {
        forall|s: S| #[trigger] self.projection.requires((&s,))
    }

    open spec fn outcome(&self, before: S, result: Result<A, Never>, after: S) -> bool {
        after == before && exists|s: S, a: A|
            cloned(before, s) && #[trigger] self.projection.ensures((&s,), a) && result == Ok::<A, Never>(a)
    }

    open spec fn is_value(&self) -> bool {
        false
    }

    fn holds_value(&self) -> (b: bool) {
        false
    }

    fn take_value(self) -> (held: Result<A, Self>) {
        Err(self)
    }

    fn execute(self, context: S) -> (out: (Result<A, Never>, S)) {
        let current = context.clone();
        let a = (self.projection)(&current);
        assert(cloned(context, current) && self.projection.ensures((&current,), a));
        (Ok(a), context)
    }
}

impl<S: Clone> StateEffect<S> {
    /// The computation that produces (a clone of) the state.
    pub fn get() -> (eff: Eff<Self, S, GetState<S>>)
        ensures
            eff.well_formed(),
            forall|before: S, result: Result<S, Never>, after: S| #[trigger] eff.outcome(before, result, after)
                <==> (result matches Ok(v) && cloned(before, v) && after == before),
    {
        Eff::new(GetState { state: PhantomData })
    }

    /// The computation that replaces the state by `state`.
    pub fn put(state: S) -> (eff: Eff<Self, (), PutState<S>>)
        ensures
            eff.well_formed(),
            forall|before: S, result: Result<(), Never>, after: S| #[trigger] eff.outcome(before, result, after)
                <==> (result == Ok::<(), Never>(()) && after == state),
    {
        Eff::new(PutState { state })
    }

    /// The computation that replaces the state by what `modifier` makes of it.
    pub fn modify<F: FnOnce(S) -> S>(modifier: F) -> (eff: Eff<Self, (), ModifyState<S, F>>)
        requires
            forall|s: S| #[trigger] modifier.requires((s,)),
        ensures
            eff.well_formed(),
            forall|before: S, result: Result<(), Never>, after: S| #[trigger] eff.outcome(before, result, after)
                <==> (result == Ok::<(), Never>(()) && exists|s: S| cloned(before, s) && #[trigger] modifier.ensures((s,), after)),
    {
        let eff = Eff::new(ModifyState { modifier, state: PhantomData });
        assert forall|before: S, result: Result<(), Never>, after: S| #[trigger] eff.outcome(before, result, after)
            <==> (result == Ok::<(), Never>(()) && exists|s: S| cloned(before, s) && #[trigger] modifier.ensures((s,), after)) by {
            let program = ModifyState { modifier, state: PhantomData::<S> };
            assert(eff.program() == program);
            if exists|s: S| cloned(before, s) && #[trigger] modifier.ensures((s,), after) {
                let s = choose|s: S| cloned(before, s) && #[trigger] modifier.ensures((s,), after);
                assert(program.modifier.ensures((s,), after));
            }
        }
        eff
    }

    /// The computation that produces what `projection` takes from the state.
    pub fn gets<A, F: FnOnce(&S) -> A>(projection: F) -> (eff: Eff<Self, A, GetsState<S, F>>)
        requires
            forall|s: S| #[trigger] projection.requires((&s,)),
        ensures
            eff.well_formed(),
            forall|before: S, result: Result<A, Never>, after: S| #[trigger] eff.outcome(before, result, after)
                <==> (after == before && exists|s: S, a: A|
                    cloned(before, s) && #[trigger] projection.ensures((&s,), a) && result == Ok::<A, Never>(a)),
    {
        let eff = Eff::new(GetsState { projection, state: PhantomData });
        assert forall|before: S, result: Result<A, Never>, after: S| #[trigger] eff.outcome(before, result, after)
            <==> (after == before && exists|s: S, a: A|
                cloned(before, s) && #[trigger] projection.ensures((&s,), a) && result == Ok::<A, Never>(a)) by {
            let program = GetsState { projection, state: PhantomData::<S> };
            assert(eff.program() == program);
            if exists|s: S, a: A| cloned(before, s) && #[trigger] projection.ensures((&s,), a) && result == Ok::<A, Never>(a) {
                let (s, a) = choose|s: S, a: A| cloned(before, s) && #[trigger] projection.ensures((&s,), a) && result == Ok::<A, Never>(a);
                assert(program.projection.ensures((&s,), a));
            }
        }
        eff
    }
}

/// The handler of the state effect: it starts from `initial_state` and
/// gives the value together with the final state.
#[derive(Debug, Clone)]
pub struct StateHandler<S> {
    initial_state: S,
}

impl<S> StateHandler<S> {
    /// The state that a run starts from.
    pub closed spec fn start(&self) -> S {
        self.initial_state
    }

    /// A handler that starts from `initial_state`.
    pub fn new(initial_state: S) -> (handler: Self)
        ensures
            handler.start() == initial_state,
    {
        StateHandler { initial_state }
    }

    /// The state that a run starts from.
    pub fn initial_state(&self) -> (state: &S)
        ensures
            *state == self.start(),
    {
        &self.initial_state
    }
}

impl<S, A, P: Program<StateEffect<S>, A>> Handler<StateEffect<S>, A, P> for StateHandler<S> {
    type Output = (A, S);

    open spec fn delivers(&self, computation: Eff<StateEffect<S>, A, P>, output: (A, S)) -> bool {
        computation.outcome(self.start(), Ok(output.0), output.1)
    }

    fn run(self, computation: Eff<StateEffect<S>, A, P>) -> (output: (A, S)) {
        StateHandler::run(self, computation)
    }
}

impl<S> StateHandler<S> {
    /// Runs `computation` from the initial state and gives its value
    /// together with the final state; [`Handler::run`] for this handler,
    /// with its contract stated over the computation's outcomes.
    pub fn run<A, P: Program<StateEffect<S>, A>>(self, computation: Eff<StateEffect<S>, A, P>) -> (output: (A, S))
        requires
            computation.well_formed(),
        ensures
            computation.outcome(self.start(), Ok(output.0), output.1),
    {
        let (result, state) = computation.run_in(self.initial_state);
        match result {
            Ok(value) => (value, state),
            Err(never) => {
                proof {
                    use_type_invariant(&never);
                }
                never.absurd()
            },
        }
    }
}

} // verus!
