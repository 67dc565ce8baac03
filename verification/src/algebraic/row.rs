//! Effect rows: computations of several effects, and the place of each
//! effect in a row.
//!
//! A row `EffCons<E, Tail>` keeps the contexts of its effects side by side;
//! [`Member`] says where an effect sits in a row, so that a computation of
//! that effect can run inside a computation of the row.

use vstd::prelude::*;
use core::marker::PhantomData;
use crate::algebraic::eff::{Eff, Program};
use crate::algebraic::effect::{Effect, Never};

verus! {

/// The empty row.
#[derive(Clone, Copy, Debug, PartialEq, Eq, Hash, Default)]
pub struct EffNil;

impl Effect for EffNil {
    type Context = ();
    type Abort = Never;

    fn name() -> (name: &'static str)
        ensures
            name@ == "EffNil"@,
    {
        "EffNil"
    }
}

/// The row of effect `E` followed by the row `Tail`.
#[derive(Debug)]
pub struct EffCons<E, Tail> {
    effects: PhantomData<(E, Tail)>,
}

impl<E, Tail> EffCons<E, Tail> {
    /// The row, as a value.
    pub fn new() -> (row: Self) {
        EffCons { effects: PhantomData }
    }
}

/// Why a computation of a row stopped: because of the first effect, or of
/// one in the rest of the row.
pub enum RowAbort<H, T> {
    /// The first effect stopped it.
    Head(H),
    /// An effect in the rest of the row stopped it.
    Tail(T),
}

impl<E: Effect, Tail: Effect> Effect for EffCons<E, Tail> {
    type Context = (E::Context, Tail::Context);
    type Abort = RowAbort<E::Abort, Tail::Abort>;

    fn name() -> (name: &'static str)
        ensures
            name@ == "EffCons"@,
    {
        "EffCons"
    }
}

/// The position of the first effect of a row.
#[derive(Clone, Copy, Debug, PartialEq, Eq, Hash, Default)]
pub struct Here;

/// The position one further than `I`.
#[derive(Debug)]
pub struct There<I>(PhantomData<I>);

impl<I> There<I> {
    /// The position, as a value.
    pub fn new() -> (position: Self) {
        There(PhantomData)
    }
}

/// A row in which effect `E` sits at position `Index`.
pub trait Member<E: Effect, Index>: Effect + Sized {
    /// The contexts of the other effects of the row.
    type Rest;

    /// The context of `E` within a context of the row, and the rest.
    spec fn split(context: Self::Context) -> (E::Context, Self::Rest);

    /// The context of the row made of a context of `E` and the rest.
    spec fn join(part: E::Context, rest: Self::Rest) -> Self::Context;

    /// How a stop of `E` shows in the row.
    spec fn lift(stop: E::Abort) -> Self::Abort;

    /// Separating a context and putting its parts back gives it again.
    proof fn lemma_join_split(context: Self::Context)
        ensures
            Self::join(Self::split(context).0, Self::split(context).1) == context,
    ;

    /// Separates the context of `E` from the rest.
    fn take_part(context: Self::Context) -> (parts: (E::Context, Self::Rest))
        ensures
            parts == Self::split(context),
    ;

    /// Puts a context of `E` back among the rest.
    fn put_part(part: E::Context, rest: Self::Rest) -> (context: Self::Context)
        ensures
            context == Self::join(part, rest),
    ;

    /// Shows a stop of `E` in the row.
    fn lift_stop(stop: E::Abort) -> (lifted: Self::Abort)
        ensures
            lifted == Self::lift(stop),
    ;
}

impl<E: Effect, Tail: Effect> Member<E, Here> for EffCons<E, Tail> {
    type Rest = Tail::Context;

    open spec fn split(context: (E::Context, Tail::Context)) -> (E::Context, Tail::Context) {
        context
    }

    open spec fn join(part: E::Context, rest: Tail::Context) -> (E::Context, Tail::Context) {
        (part, rest)
    }

    open spec fn lift(stop: E::Abort) -> RowAbort<E::Abort, Tail::Abort> {
        RowAbort::Head(stop)
    }

    proof fn lemma_join_split(context: (E::Context, Tail::Context)) {
    }

    fn take_part(context: (E::Context, Tail::Context)) -> (parts: (E::Context, Tail::Context)) {
        context
    }

    fn put_part(part: E::Context, rest: Tail::Context) -> (context: (E::Context, Tail::Context)) {
        (part, rest)
    }

    fn lift_stop(stop: E::Abort) -> (lifted: RowAbort<E::Abort, Tail::Abort>) {
        RowAbort::Head(stop)
    }
}

impl<E: Effect, Other: Effect, Tail: Effect + Member<E, I>, I> Member<E, There<I>> for EffCons<Other, Tail> {
    type Rest = (Other::Context, Tail::Rest);

    open spec fn split(context: (Other::Context, Tail::Context)) -> (E::Context, (Other::Context, Tail::Rest)) {
        let inner = Tail::split(context.1);
        (inner.0, (context.0, inner.1))
    }

    open spec fn join(part: E::Context, rest: (Other::Context, Tail::Rest)) -> (Other::Context, Tail::Context) {
        (rest.0, Tail::join(part, rest.1))
    }

    open spec fn lift(stop: E::Abort) -> RowAbort<Other::Abort, Tail::Abort> {
        RowAbort::Tail(Tail::lift(stop))
    }

    proof fn lemma_join_split(context: (Other::Context, Tail::Context)) {
        Tail::lemma_join_split(context.1);
    }

    fn take_part(context: (Other::Context, Tail::Context)) -> (parts: (E::Context, (Other::Context, Tail::Rest))) {
        let (other, tail) = context;
        let (part, rest) = Tail::take_part(tail);
        (part, (other, rest))
    }

    fn put_part(part: E::Context, rest: (Other::Context, Tail::Rest)) -> (context: (Other::Context, Tail::Context)) {
        let (other, tail_rest) = rest;
        (other, Tail::put_part(part, tail_rest))
    }

    fn lift_stop(stop: E::Abort) -> (lifted: RowAbort<Other::Abort, Tail::Abort>) {
        RowAbort::Tail(Tail::lift_stop(stop))
    }
}

/// The first position at which a row holds effect `E`.
pub trait FindIndex<E> {
    /// The position.
    type Index;
}

impl<E, Tail> FindIndex<E> for EffCons<E, Tail> {
    type Index = Here;
}

/// A program of effect `E` run inside a row where `E` sits at position `I`:
/// it runs on the row's context for `E` and leaves the rest alone.
pub struct Injected<E, I, P> {
    /// The program of `E`.
    pub inner: P,
    /// Marks the effect and its position.
    pub place: PhantomData<(E, I)>,
}

impl<E: Effect, I, Row: Member<E, I>, A, P: Program<E, A>> Program<Row, A> for Injected<E, I, P> {
    open spec fn well_formed(&self) -> bool {
        self.inner.well_formed()
    }

    open spec fn outcome(&self, before: Row::Context, result: Result<A, Row::Abort>, after: Row::Context) -> bool {
        exists|inner_result: Result<A, E::Abort>, part_after: E::Context|
            #[trigger] self.inner.outcome(Row::split(before).0, inner_result, part_after)
                && after == Row::join(part_after, Row::split(before).1)
                && result == (match inner_result {
                    Ok(a) => Ok::<A, Row::Abort>(a),
                    Err(stop) => Err(Row::lift(stop)),
                })
    }

    open spec fn is_value(&self) -> bool {
        self.inner.is_value()
    }

    fn holds_value(&self) -> (b: bool) {
        self.inner.holds_value()
    }

    fn take_value(self) -> (held: Result<A, Self>) {
        let ghost injected = self;
        match self.inner.take_value() {
            Ok(a) => {
                assert forall|before: Row::Context, result: Result<A, Row::Abort>, after: Row::Context|
                    #[trigger] <Injected<E, I, P> as Program<Row, A>>::outcome(&injected, before, result, after) <==> (result == Ok::<A, Row::Abort>(a) && after == before) by {
                    Row::lemma_join_split(before);
                    if result == Ok::<A, Row::Abort>(a) && after == before {
                        assert(injected.inner.outcome(Row::split(before).0, Ok::<A, E::Abort>(a), Row::split(before).0));
                    }
                    if <Injected<E, I, P> as Program<Row, A>>::outcome(&injected, before, result, after) {
                        let (inner_result, part_after) = choose|inner_result: Result<A, E::Abort>, part_after: E::Context|
                            #[trigger] injected.inner.outcome(Row::split(before).0, inner_result, part_after)
                                && after == Row::join(part_after, Row::split(before).1)
                                && result == (match inner_result {
                                    Ok(a) => Ok::<A, Row::Abort>(a),
                                    Err(stop) => Err(Row::lift(stop)),
                                });
                    }
                }
                Ok(a)
            },
            Err(inner) => Err(Injected { inner, place: PhantomData }),
        }
    }

    fn execute(self, context: Row::Context) -> (out: (Result<A, Row::Abort>, Row::Context)) {
        let ghost before = context;
        let (part, rest) = Row::take_part(context);
        let (inner_result, part_after) = self.inner.execute(part);
        let ghost kept = inner_result;
        let after = Row::put_part(part_after, rest);
        let result = match inner_result {
            Ok(a) => Ok(a),
            Err(stop) => Err(Row::lift_stop(stop)),
        };
        assert(self.inner.outcome(Row::split(before).0, kept, part_after));
        (result, after)
    }
}

/// Runs a computation of effect `E` inside a computation of the row `Row`,
/// where `E` sits at position `I`.
pub fn inject<E: Effect, I, Row: Member<E, I>, A, P: Program<E, A>>(effect: Eff<E, A, P>) -> (eff: Eff<Row, A, Injected<E, I, P>>)
    ensures
        eff.program().inner == effect.program(),
        eff.well_formed() == effect.well_formed(),
        eff.is_value() == effect.is_value(),
        forall|before: Row::Context, result: Result<A, Row::Abort>, after: Row::Context| #[trigger] eff.outcome(before, result, after) <==>
            exists|inner_result: Result<A, E::Abort>, part_after: E::Context|
                #[trigger] effect.outcome(Row::split(before).0, inner_result, part_after)
                    && after == Row::join(part_after, Row::split(before).1)
                    && result == (match inner_result {
                        Ok(a) => Ok::<A, Row::Abort>(a),
                        Err(stop) => Err(Row::lift(stop)),
                    }),
{
    let eff = Eff::new(Injected { inner: effect.into_program(), place: PhantomData });
    let ghost program = Injected { inner: effect.program(), place: PhantomData::<(E, I)> };
    assert(eff.program() == program);
    assert forall|before: Row::Context, result: Result<A, Row::Abort>, after: Row::Context| #[trigger] eff.outcome(before, result, after) <==>
        exists|inner_result: Result<A, E::Abort>, part_after: E::Context|
            #[trigger] effect.outcome(Row::split(before).0, inner_result, part_after)
                && after == Row::join(part_after, Row::split(before).1)
                && result == (match inner_result {
                    Ok(a) => Ok::<A, Row::Abort>(a),
                    Err(stop) => Err(Row::lift(stop)),
                }) by {
        if exists|inner_result: Result<A, E::Abort>, part_after: E::Context|
            #[trigger] effect.outcome(Row::split(before).0, inner_result, part_after)
                && after == Row::join(part_after, Row::split(before).1)
                && result == (match inner_result {
                    Ok(a) => Ok::<A, Row::Abort>(a),
                    Err(stop) => Err(Row::lift(stop)),
                }) {
            let (inner_result, part_after) = choose|inner_result: Result<A, E::Abort>, part_after: E::Context|
                #[trigger] effect.outcome(Row::split(before).0, inner_result, part_after)
                    && after == Row::join(part_after, Row::split(before).1)
                    && result == (match inner_result {
                        Ok(a) => Ok::<A, Row::Abort>(a),
                        Err(stop) => Err(Row::lift(stop)),
                    });
            assert(program.inner.outcome(Row::split(before).0, inner_result, part_after));
            assert(<Injected<E, I, P> as Program<Row, A>>::outcome(&program, before, result, after));
        }
    }
    eff
}

/// Takes back the computation of effect `E` that was injected into the row.
pub fn project<E: Effect, I, Row: Member<E, I>, A, P: Program<E, A>>(effect: Eff<Row, A, Injected<E, I, P>>) -> (eff: Option<Eff<E, A, P>>)
    ensures
        eff matches Some(inner) && inner.program() == effect.program().inner,
{
    let injected = effect.into_program();
    Some(Eff::new(injected.inner))
}

} // verus!
