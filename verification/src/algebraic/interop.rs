//! Requests of the standard effects inside effect rows, and conversion of
//! readers into computations of the reader effect.

use vstd::prelude::*;
use core::marker::PhantomData;
use crate::algebraic::eff::{Eff, Mapped, Program};
use crate::algebraic::effect::{Effect, Never};
use crate::algebraic::error::{ErrorEffect, Throw};
use crate::algebraic::reader::{AskEnvironment, ReaderEffect};
use crate::algebraic::row::{inject, Injected, Member};
use crate::algebraic::state::{GetState, GetsState, ModifyState, PutState, StateEffect};
use crate::algebraic::writer::{Tell, WriterEffect};
use crate::env_fn::EnvFn;
use crate::reader::Reader;
use crate::typeclass::Monoid;

verus! {

/// Types that convert into a computation of effect `E`.
pub trait IntoEff<E: Effect> {
    /// The value the computation produces.
    type Value;
    /// The program of the computation.
    type Prog;

    /// The computation.
    fn into_eff(self) -> Eff<E, Self::Value, Self::Prog>;
}

/// Types that a computation of effect `E` producing `A` converts into.
pub trait FromEff<E: Effect, A, P>: Sized {
    /// The converted value.
    fn from_eff(eff: Eff<E, A, P>) -> Self;
}

/// The program that runs a reader on (a clone of) the environment.
pub struct ReaderProgram<R, A, F> {
    /// The reader.
    pub reader: Reader<R, A, F>,
}

impl<R: Clone, A, F: EnvFn<R, A>> Program<ReaderEffect<R>, A> for ReaderProgram<R, A, F> {
    open spec fn well_formed(&self) -> bool {
        self.reader.total()
    }

    open spec fn outcome(&self, before: R, result: Result<A, Never>, after: R) -> bool {
        after == before && exists|copy: R, a: A| cloned(before, copy) && #[trigger] self.reader.yields(copy, a) && result == Ok::<A, Never>(a)
    }

    open spec fn is_value(&self) -> bool {
        false
    }

    fn holds_value(&self) -> (b: bool) {
        false
    }

    fn take_value(self) -> (held: Result<A, Self>) {
        Err(self)
    }

    fn execute(self, context: R) -> (out: (Result<A, Never>, R)) {
        let copy = context.clone();
        assert(self.reader.runnable(copy));
        let a = self.reader.run(copy);
        assert(cloned(context, copy) && self.reader.yields(copy, a));
        (Ok(a), context)
    }
}

impl<R: Clone, A, F: EnvFn<R, A>> IntoEff<ReaderEffect<R>> for Reader<R, A, F> {
    type Value = A;
    type Prog = ReaderProgram<R, A, F>;

    /// The computation that runs the reader on (a clone of) the environment.
    fn into_eff(self) -> (eff: Eff<ReaderEffect<R>, A, ReaderProgram<R, A, F>>)
        ensures
            eff.well_formed() == self.total(),
            forall|before: R, result: Result<A, Never>, after: R| #[trigger] eff.outcome(before, result, after) <==>
                (after == before && exists|copy: R, a: A| cloned(before, copy) && #[trigger] self.yields(copy, a) && result == Ok::<A, Never>(a)),
    {
        Reader::into_eff(self)
    }
}

impl<R: Clone, A, F: EnvFn<R, A>> Reader<R, A, F> {
    /// The computation that runs the reader on (a clone of) the environment;
    /// [`IntoEff::into_eff`] for readers.
    pub fn into_eff(self) -> (eff: Eff<ReaderEffect<R>, A, ReaderProgram<R, A, F>>)
        ensures
            eff.well_formed() == self.total(),
            forall|before: R, result: Result<A, Never>, after: R| #[trigger] eff.outcome(before, result, after) <==>
                (after == before && exists|copy: R, a: A| cloned(before, copy) && #[trigger] self.yields(copy, a) && result == Ok::<A, Never>(a)),
    {
        Eff::new(ReaderProgram { reader: self })
    }
}

/// The request for (a clone of) the environment, in a row.
pub fn ask<R: Clone, Row: Member<ReaderEffect<R>, I>, I>() -> (eff: Eff<Row, R, Injected<ReaderEffect<R>, I, AskEnvironment<R>>>)
    ensures
        eff.well_formed(),
        forall|before: Row::Context, result: Result<R, Row::Abort>, after: Row::Context| #[trigger] eff.outcome(before, result, after) <==>
            (result matches Ok(v) && cloned(Row::split(before).0, v) && after == Row::join(Row::split(before).0, Row::split(before).1)),
{
    let asked = ReaderEffect::<R>::ask();
    let eff = inject::<ReaderEffect<R>, I, Row, R, AskEnvironment<R>>(asked);
    assert forall|before: Row::Context, result: Result<R, Row::Abort>, after: Row::Context| #[trigger] eff.outcome(before, result, after) <==>
        (result matches Ok(v) && cloned(Row::split(before).0, v) && after == Row::join(Row::split(before).0, Row::split(before).1)) by {
        if result matches Ok(v) && cloned(Row::split(before).0, v) && after == Row::join(Row::split(before).0, Row::split(before).1) {
            let v = result->Ok_0;
            assert(asked.outcome(Row::split(before).0, Ok(v), Row::split(before).0));
        }
    }
    eff
}

/// The request for what `projection` makes of the environment, in a row.
pub fn asks<R: Clone, A, Row: Member<ReaderEffect<R>, I>, I, F: FnOnce(R) -> A>(projection: F) -> (eff: Eff<Row, A, Injected<ReaderEffect<R>, I, Mapped<R, A, AskEnvironment<R>, F>>>)
    requires
        forall|r: R| #[trigger] projection.requires((r,)),
    ensures
        eff.well_formed(),
        forall|before: Row::Context, result: Result<A, Row::Abort>, after: Row::Context| #[trigger] eff.outcome(before, result, after) ==>
            after == Row::join(Row::split(before).0, Row::split(before).1)
                && exists|v: R, a: A| cloned(Row::split(before).0, v) && #[trigger] projection.ensures((v,), a) && result == Ok::<A, Row::Abort>(a),
{
    let asked = ReaderEffect::<R>::asks(projection);
    inject::<ReaderEffect<R>, I, Row, A, Mapped<R, A, AskEnvironment<R>, F>>(asked)
}

/// The request for (a clone of) the state, in a row.
pub fn get<S: Clone, Row: Member<StateEffect<S>, I>, I>() -> (eff: Eff<Row, S, Injected<StateEffect<S>, I, GetState<S>>>)
    ensures
        eff.well_formed(),
        forall|before: Row::Context, result: Result<S, Row::Abort>, after: Row::Context| #[trigger] eff.outcome(before, result, after) <==>
            (result matches Ok(v) && cloned(Row::split(before).0, v) && after == Row::join(Row::split(before).0, Row::split(before).1)),
{
    let got = StateEffect::<S>::get();
    let eff = inject::<StateEffect<S>, I, Row, S, GetState<S>>(got);
    assert forall|before: Row::Context, result: Result<S, Row::Abort>, after: Row::Context| #[trigger] eff.outcome(before, result, after) <==>
        (result matches Ok(v) && cloned(Row::split(before).0, v) && after == Row::join(Row::split(before).0, Row::split(before).1)) by {
        if result matches Ok(v) && cloned(Row::split(before).0, v) && after == Row::join(Row::split(before).0, Row::split(before).1) {
            let v = result->Ok_0;
            assert(got.outcome(Row::split(before).0, Ok(v), Row::split(before).0));
        }
    }
    eff
}

/// The request to replace the state by `state`, in a row.
pub fn put<S: Clone, Row: Member<StateEffect<S>, I>, I>(state: S) -> (eff: Eff<Row, (), Injected<StateEffect<S>, I, PutState<S>>>)
    ensures
        eff.well_formed(),
        forall|before: Row::Context, result: Result<(), Row::Abort>, after: Row::Context| #[trigger] eff.outcome(before, result, after) <==>
            result == Ok::<(), Row::Abort>(()) && after == Row::join(state, Row::split(before).1),
{
    let putting = StateEffect::<S>::put(state);
    let eff = inject::<StateEffect<S>, I, Row, (), PutState<S>>(putting);
    assert forall|before: Row::Context, result: Result<(), Row::Abort>, after: Row::Context| #[trigger] eff.outcome(before, result, after) <==>
        result == Ok::<(), Row::Abort>(()) && after == Row::join(state, Row::split(before).1) by {
        if result == Ok::<(), Row::Abort>(()) && after == Row::join(state, Row::split(before).1) {
            assert(putting.outcome(Row::split(before).0, Ok(()), state));
        }
    }
    eff
}

/// The request to replace the state by what `modifier` makes of it, in a row.
pub fn modify<S: Clone, Row: Member<StateEffect<S>, I>, I, F: FnOnce(S) -> S>(modifier: F) -> (eff: Eff<Row, (), Injected<StateEffect<S>, I, ModifyState<S, F>>>)
    requires
        forall|s: S| #[trigger] modifier.requires((s,)),
    ensures
        eff.well_formed(),
        forall|before: Row::Context, result: Result<(), Row::Abort>, after: Row::Context| #[trigger] eff.outcome(before, result, after) ==>
            result == Ok::<(), Row::Abort>(()) && exists|s: S, changed: S| cloned(Row::split(before).0, s) && #[trigger] modifier.ensures((s,), changed)
                && after == Row::join(changed, Row::split(before).1),
{
    let modifying = StateEffect::<S>::modify(modifier);
    let eff = inject::<StateEffect<S>, I, Row, (), ModifyState<S, F>>(modifying);
    assert forall|before: Row::Context, result: Result<(), Row::Abort>, after: Row::Context| #[trigger] eff.outcome(before, result, after) implies
        result == Ok::<(), Row::Abort>(()) && exists|s: S, changed: S| cloned(Row::split(before).0, s) && #[trigger] modifier.ensures((s,), changed)
            && after == Row::join(changed, Row::split(before).1) by {
        let (inner_result, part_after) = choose|inner_result: Result<(), Never>, part_after: S|
            #[trigger] modifying.outcome(Row::split(before).0, inner_result, part_after)
                && after == Row::join(part_after, Row::split(before).1)
                && result == (match inner_result {
                    Ok(a) => Ok::<(), Row::Abort>(a),
                    Err(stop) => Err(Row::lift(stop)),
                });
        let s = choose|s: S| cloned(Row::split(before).0, s) && #[trigger] modifier.ensures((s,), part_after);
    }
    eff
}

/// The request for what `projection` takes from the state, in a row.
pub fn gets<S: Clone, A, Row: Member<StateEffect<S>, I>, I, F: FnOnce(&S) -> A>(projection: F) -> (eff: Eff<Row, A, Injected<StateEffect<S>, I, GetsState<S, F>>>)
    requires
        forall|s: S| #[trigger] projection.requires((&s,)),
    ensures
        eff.well_formed(),
        forall|before: Row::Context, result: Result<A, Row::Abort>, after: Row::Context| #[trigger] eff.outcome(before, result, after) ==>
            after == Row::join(Row::split(before).0, Row::split(before).1)
                && exists|s: S, a: A| cloned(Row::split(before).0, s) && #[trigger] projection.ensures((&s,), a) && result == Ok::<A, Row::Abort>(a),
{
    let getting = StateEffect::<S>::gets(projection);
    let eff = inject::<StateEffect<S>, I, Row, A, GetsState<S, F>>(getting);
    assert forall|before: Row::Context, result: Result<A, Row::Abort>, after: Row::Context| #[trigger] eff.outcome(before, result, after) implies
        after == Row::join(Row::split(before).0, Row::split(before).1)
            && exists|s: S, a: A| cloned(Row::split(before).0, s) && #[trigger] projection.ensures((&s,), a) && result == Ok::<A, Row::Abort>(a) by {
        let (inner_result, part_after) = choose|inner_result: Result<A, Never>, part_after: S|
            #[trigger] getting.outcome(Row::split(before).0, inner_result, part_after)
                && after == Row::join(part_after, Row::split(before).1)
                && result == (match inner_result {
                    Ok(a) => Ok::<A, Row::Abort>(a),
                    Err(stop) => Err(Row::lift(stop)),
                });
        let (s, a) = choose|s: S, a: A| cloned(Row::split(before).0, s) && #[trigger] projection.ensures((&s,), a) && inner_result == Ok::<A, Never>(a);
    }
    eff
}

/// The request to append `output` to the log, in a row.
pub fn tell<W: Monoid, Row: Member<WriterEffect<W>, I>, I>(output: W) -> (eff: Eff<Row, (), Injected<WriterEffect<W>, I, Tell<W>>>)
    ensures
        eff.well_formed(),
        forall|before: Row::Context, result: Result<(), Row::Abort>, after: Row::Context| #[trigger] eff.outcome(before, result, after) ==>
            result == Ok::<(), Row::Abort>(()) && exists|log: W| Row::split(before).0.combined(output, log)
                && after == Row::join(log, Row::split(before).1),
{
    let told = WriterEffect::<W>::tell(output);
    let eff = inject::<WriterEffect<W>, I, Row, (), Tell<W>>(told);
    assert forall|before: Row::Context, result: Result<(), Row::Abort>, after: Row::Context| #[trigger] eff.outcome(before, result, after) implies
        result == Ok::<(), Row::Abort>(()) && exists|log: W| Row::split(before).0.combined(output, log)
            && after == Row::join(log, Row::split(before).1) by {
        let (inner_result, part_after) = choose|inner_result: Result<(), Never>, part_after: W|
            #[trigger] told.outcome(Row::split(before).0, inner_result, part_after)
                && after == Row::join(part_after, Row::split(before).1)
                && result == (match inner_result {
                    Ok(a) => Ok::<(), Row::Abort>(a),
                    Err(stop) => Err(Row::lift(stop)),
                });
    }
    eff
}

/// The request to stop with `error`, in a row.
pub fn throw_error<E, A, Row: Member<ErrorEffect<E>, I>, I>(error: E) -> (eff: Eff<Row, A, Injected<ErrorEffect<E>, I, Throw<E, A>>>)
    ensures
        eff.well_formed(),
        forall|before: Row::Context, result: Result<A, Row::Abort>, after: Row::Context| #[trigger] eff.outcome(before, result, after) ==>
            result == Err::<A, Row::Abort>(Row::lift(error)) && after == Row::join((), Row::split(before).1),
{
    let thrown = ErrorEffect::<E>::throw::<A>(error);
    let eff = inject::<ErrorEffect<E>, I, Row, A, Throw<E, A>>(thrown);
    assert forall|before: Row::Context, result: Result<A, Row::Abort>, after: Row::Context| #[trigger] eff.outcome(before, result, after) implies
        result == Err::<A, Row::Abort>(Row::lift(error)) && after == Row::join((), Row::split(before).1) by {
        let (inner_result, part_after) = choose|inner_result: Result<A, E>, part_after: ()|
            #[trigger] thrown.outcome(Row::split(before).0, inner_result, part_after)
                && after == Row::join(part_after, Row::split(before).1)
                && result == (match inner_result {
                    Ok(a) => Ok::<A, Row::Abort>(a),
                    Err(stop) => Err(Row::lift(stop)),
                });
    }
    eff
}

} // verus!
