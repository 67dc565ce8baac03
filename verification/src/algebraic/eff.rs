//! Effectful computations and the monad combinators on them.
//!
//! An [`Eff<E, A, P>`] is a computation of effect `E` that produces a value
//! of type `A`; `P` is the type of the program that it holds. A program is
//! specified by its outcomes: from the context that the handler holds
//! before, the result it may end with (a value, or the reason it stopped)
//! and the context after.

use vstd::prelude::*;
use core::marker::PhantomData;
use crate::algebraic::effect::Effect;

verus! {

/// A number that identifies an operation of an effect.
#[derive(Debug, Clone, Copy, PartialEq, Eq, Hash, Structural)]
pub struct OperationTag(pub u32);

impl OperationTag {
    /// The tag with number `value`.
    pub fn new(value: u32) -> (tag: Self)
        ensures
            tag.0 == value,
    {
        OperationTag(value)
    }
}

/// A program of effect `E` producing a value of type `A`.
pub trait Program<E: Effect, A>: Sized {
    /// Every function inside the program may be called as the program needs it.
    spec fn well_formed(&self) -> bool;

    /// Run from context `before`, the program may end with `result` and
    /// leave the context `after`.
    spec fn outcome(&self, before: E::Context, result: Result<A, E::Abort>, after: E::Context) -> bool;

    /// The program holds its value and requests nothing.
    spec fn is_value(&self) -> bool;

    /// Whether the program holds its value and requests nothing.
    fn holds_value(&self) -> (b: bool)
        ensures
            b == self.is_value(),
    ;

    /// Takes the value out of a program that holds it, whose run produces
    /// that value and leaves the context alone; gives back any other
    /// program unchanged.
    fn take_value(self) -> (held: Result<A, Self>)
        ensures
            self.is_value() <==> held is Ok,
            held matches Ok(a) ==> forall|before: E::Context, result: Result<A, E::Abort>, after: E::Context|
                #[trigger] self.outcome(before, result, after) <==> (result == Ok::<A, E::Abort>(a) && after == before),
            held matches Err(p) ==> p == self,
    ;

    /// Runs the program from `context`.
    fn execute(self, context: E::Context) -> (out: (Result<A, E::Abort>, E::Context))
        requires
            self.well_formed(),
        ensures
            self.outcome(context, out.0, out.1),
    ;
}

/// The program that produces a value it holds and leaves the context alone.
pub struct Done<A> {
    /// The value.
    pub value: A,
}

impl<E: Effect, A> Program<E, A> for Done<A> {
    open spec fn well_formed(&self) -> bool {
        true
    }

    open spec fn outcome(&self, before: E::Context, result: Result<A, E::Abort>, after: E::Context) -> bool {
        result == Ok::<A, E::Abort>(self.value) && after == before
    }

    open spec fn is_value(&self) -> bool {
        true
    }

    fn holds_value(&self) -> (b: bool) {
        true
    }

    fn take_value(self) -> (held: Result<A, Self>) {
        Ok(self.value)
    }

    fn execute(self, context: E::Context) -> (out: (Result<A, E::Abort>, E::Context)) {
        (Ok(self.value), context)
    }
}

/// A computation of effect `E` that produces a value of type `A`.
pub struct Eff<E, A, P> {
    program: P,
    _marker: PhantomData<(E, A)>,
}

impl<E, A, P> Eff<E, A, P> {
    /// The program of the computation.
    pub closed spec fn program(&self) -> P {
        self.program
    }

    /// Wraps a program.
    pub fn new(program: P) -> (eff: Self)
        ensures
            eff.program() == program,
    {
        Eff { program, _marker: PhantomData }
    }

    /// Takes out the program.
    pub fn into_program(self) -> (program: P)
        ensures
            program == self.program(),
    {
        self.program
    }
}

/// Two computations that hold the same program are the same.
pub proof fn lemma_same_program<E, A, P>(first: Eff<E, A, P>, second: Eff<E, A, P>)
    requires
        first.program() == second.program(),
    ensures
        first == second,
{
}

impl<E: Effect, A> Eff<E, A, Done<A>> {
    /// The computation that produces `value` and requests nothing.
    pub fn pure(value: A) -> (eff: Self)
        ensures
            eff.well_formed(),
            eff.is_value(),
            forall|before: E::Context, result: Result<A, E::Abort>, after: E::Context|
                #[trigger] eff.outcome(before, result, after) <==> (result == Ok::<A, E::Abort>(value) && after == before),
    {
        Eff::new(Done { value })
    }
}

impl<E: Effect, A, P: Program<E, A>> Eff<E, A, P> {
    /// Every function inside the computation may be called as it needs it.
    #[verifier::inline]
    pub open spec fn well_formed(&self) -> bool {
        self.program().well_formed()
    }

    /// Run from `before`, the computation may end with `result` and leave `after`.
    #[verifier::inline]
    pub open spec fn outcome(&self, before: E::Context, result: Result<A, E::Abort>, after: E::Context) -> bool {
        self.program().outcome(before, result, after)
    }

    /// The computation holds its value and requests nothing.
    #[verifier::inline]
    pub open spec fn is_value(&self) -> bool {
        self.program().is_value()
    }

    /// The computation holds the value `a`: it requests nothing, and its
    /// run produces `a` and leaves the context alone.
    pub open spec fn holds(&self, a: A) -> bool {
        &&& self.is_value()
        &&& forall|before: E::Context, result: Result<A, E::Abort>, after: E::Context|
            #[trigger] self.outcome(before, result, after) <==> (result == Ok::<A, E::Abort>(a) && after == before)
    }

    /// The computation behaves as `other`: it holds a value exactly when
    /// `other` does, and has the same outcomes.
    pub open spec fn same_as<Q: Program<E, A>>(&self, other: Eff<E, A, Q>) -> bool {
        &&& self.is_value() == other.is_value()
        &&& forall|before: E::Context, result: Result<A, E::Abort>, after: E::Context|
            #[trigger] self.outcome(before, result, after) <==> other.outcome(before, result, after)
    }

    /// The outcome relation of the computation.
    pub open spec fn outcomes(&self) -> spec_fn(E::Context, Result<A, E::Abort>, E::Context) -> bool {
        |before: E::Context, result: Result<A, E::Abort>, after: E::Context| self.outcome(before, result, after)
    }

    /// Whether the computation holds its value and requests nothing.
    pub fn is_pure(&self) -> (b: bool)
        ensures
            b == self.is_value(),
    {
        self.program.holds_value()
    }

    /// Runs the computation from `context`; what a handler does.
    pub fn run_in(self, context: E::Context) -> (out: (Result<A, E::Abort>, E::Context))
        requires
            self.well_formed(),
        ensures
            self.outcome(context, out.0, out.1),
    {
        self.program.execute(context)
    }
}


/// The program of `flat_map`: the first program, then the computation that
/// the continuation chooses for its value. When the first program held its
/// value, the continuation has already been applied.
pub enum Bound<A, P, K, Q> {
    /// The continuation waits for the first program's value.
    Waiting {
        /// The program run first.
        first: P,
        /// The continuation.
        function: K,
        /// Marks the type of the first value.
        intermediate: PhantomData<A>,
    },
    /// The continuation has chosen the next program.
    Ready {
        /// The next program.
        next: Q,
    },
}

impl<E: Effect, A, B, P: Program<E, A>, Q: Program<E, B>, K: FnOnce(A) -> Eff<E, B, Q>> Program<E, B> for Bound<A, P, K, Q> {
    open spec fn well_formed(&self) -> bool {
        match self {
            Bound::Waiting { first, function, .. } => {
                &&& first.well_formed()
                &&& forall|before: E::Context, a: A, mid: E::Context|
                    #[trigger] first.outcome(before, Ok(a), mid) ==> function.requires((a,))
                &&& forall|before: E::Context, a: A, mid: E::Context, next: Eff<E, B, Q>|
                    #[trigger] first.outcome(before, Ok(a), mid) && #[trigger] function.ensures((a,), next) ==> next.well_formed()
            },
            Bound::Ready { next } => next.well_formed(),
        }
    }

    open spec fn outcome(&self, before: E::Context, result: Result<B, E::Abort>, after: E::Context) -> bool {
        match self {
            Bound::Waiting { first, function, .. } => {
                ||| exists|mid: E::Context, a: A, next: Eff<E, B, Q>|
                    #[trigger] first.outcome(before, Ok(a), mid) && #[trigger] function.ensures((a,), next)
                        && next.outcome(mid, result, after)
                ||| exists|stop: E::Abort| #[trigger] first.outcome(before, Err(stop), after) && result == Err::<B, E::Abort>(stop)
            },
            Bound::Ready { next } => next.outcome(before, result, after),
        }
    }

    open spec fn is_value(&self) -> bool {
        match self {
            Bound::Waiting { .. } => false,
            Bound::Ready { next } => next.is_value(),
        }
    }

    fn holds_value(&self) -> (b: bool) {
        match self {
            Bound::Waiting { .. } => false,
            Bound::Ready { next } => next.holds_value(),
        }
    }

    fn take_value(self) -> (held: Result<B, Self>) {
        match self {
            Bound::Ready { next } => match next.take_value() {
                Ok(b) => Ok(b),
                Err(next) => Err(Bound::Ready { next }),
            },
            Bound::Waiting { first, function, intermediate } => Err(Bound::Waiting { first, function, intermediate }),
        }
    }

    fn execute(self, context: E::Context) -> (out: (Result<B, E::Abort>, E::Context)) {
        match self {
            Bound::Waiting { first, function, .. } => {
                let (first_result, mid) = first.execute(context);
                match first_result {
                    Ok(a) => {
                        let next = function(a);
                        let out = next.run_in(mid);
                        assert(first.outcome(context, Ok(a), mid) && function.ensures((a,), next) && next.outcome(mid, out.0, out.1));
                        out
                    },
                    Err(stop) => {
                        assert(first.outcome(context, Err(stop), mid));
                        (Err(stop), mid)
                    },
                }
            },
            Bound::Ready { next } => next.execute(context),
        }
    }
}

/// The program of `fmap`: the inner program, then `function` applied to
/// its value. When the inner program held its value, the function has
/// already been applied.
pub enum Mapped<A, B, P, F> {
    /// The function waits for the inner program's value.
    Waiting {
        /// The inner program.
        inner: P,
        /// The function.
        function: F,
        /// Marks the type of the inner value.
        intermediate: PhantomData<A>,
    },
    /// The value has already been computed.
    Ready {
        /// The value.
        value: B,
    },
}

impl<E: Effect, A, B, P: Program<E, A>, F: FnOnce(A) -> B> Program<E, B> for Mapped<A, B, P, F> {
    open spec fn well_formed(&self) -> bool {
        match self {
            Mapped::Waiting { inner, function, .. } => {
                &&& inner.well_formed()
                &&& forall|before: E::Context, a: A, mid: E::Context|
                    #[trigger] inner.outcome(before, Ok(a), mid) ==> function.requires((a,))
            },
            Mapped::Ready { .. } => true,
        }
    }

    fn take_value(self) -> (held: Result<B, Self>) {
        match self {
            Mapped::Ready { value } => Ok(value),
            Mapped::Waiting { inner, function, intermediate } => Err(Mapped::Waiting { inner, function, intermediate }),
        }
    }

    open spec fn outcome(&self, before: E::Context, result: Result<B, E::Abort>, after: E::Context) -> bool {
        match self {
            Mapped::Waiting { inner, function, .. } => {
                ||| exists|a: A, b: B| #[trigger] inner.outcome(before, Ok(a), after) && #[trigger] function.ensures((a,), b)
                    && result == Ok::<B, E::Abort>(b)
                ||| exists|stop: E::Abort| #[trigger] inner.outcome(before, Err(stop), after) && result == Err::<B, E::Abort>(stop)
            },
            Mapped::Ready { value } => result == Ok::<B, E::Abort>(*value) && after == before,
        }
    }

    open spec fn is_value(&self) -> bool {
        self is Ready
    }

    fn holds_value(&self) -> (b: bool) {
        match self {
            Mapped::Waiting { .. } => false,
            Mapped::Ready { .. } => true,
        }
    }

    fn execute(self, context: E::Context) -> (out: (Result<B, E::Abort>, E::Context)) {
        match self {
            Mapped::Waiting { inner, function, .. } => {
                let (inner_result, after) = inner.execute(context);
                match inner_result {
                    Ok(a) => {
                        let b = function(a);
                        assert(inner.outcome(context, Ok(a), after) && function.ensures((a,), b));
                        (Ok(b), after)
                    },
                    Err(stop) => {
                        assert(inner.outcome(context, Err(stop), after));
                        (Err(stop), after)
                    },
                }
            },
            Mapped::Ready { value } => (Ok(value), context),
        }
    }
}

/// The program of `then`: the first program, whose value is discarded,
/// then the second. When the first program held its value, only the second
/// remains.
pub enum Sequenced<A, P, Q> {
    /// Both programs remain.
    Both {
        /// The program whose value is discarded.
        first: P,
        /// The program whose value is kept.
        second: Q,
        /// Marks the type of the discarded value.
        discarded: PhantomData<A>,
    },
    /// Only the second program remains.
    Second {
        /// The program whose value is kept.
        second: Q,
    },
}

impl<E: Effect, A, B, P: Program<E, A>, Q: Program<E, B>> Program<E, B> for Sequenced<A, P, Q> {
    open spec fn well_formed(&self) -> bool {
        match self {
            Sequenced::Both { first, second, .. } => first.well_formed() && second.well_formed(),
            Sequenced::Second { second } => second.well_formed(),
        }
    }

    open spec fn outcome(&self, before: E::Context, result: Result<B, E::Abort>, after: E::Context) -> bool {
        match self {
            Sequenced::Both { first, second, .. } => {
                ||| exists|mid: E::Context, a: A| #[trigger] first.outcome(before, Ok(a), mid) && second.outcome(mid, result, after)
                ||| exists|stop: E::Abort| #[trigger] first.outcome(before, Err(stop), after) && result == Err::<B, E::Abort>(stop)
            },
            Sequenced::Second { second } => second.outcome(before, result, after),
        }
    }

    open spec fn is_value(&self) -> bool {
        match self {
            Sequenced::Both { .. } => false,
            Sequenced::Second { second } => second.is_value(),
        }
    }

    fn holds_value(&self) -> (b: bool) {
        match self {
            Sequenced::Both { .. } => false,
            Sequenced::Second { second } => second.holds_value(),
        }
    }

    fn take_value(self) -> (held: Result<B, Self>) {
        match self {
            Sequenced::Second { second } => match second.take_value() {
                Ok(b) => Ok(b),
                Err(second) => Err(Sequenced::Second { second }),
            },
            Sequenced::Both { first, second, discarded } => Err(Sequenced::Both { first, second, discarded }),
        }
    }

    fn execute(self, context: E::Context) -> (out: (Result<B, E::Abort>, E::Context)) {
        match self {
            Sequenced::Both { first, second, .. } => {
                let (first_result, mid) = first.execute(context);
                match first_result {
                    Ok(a) => {
                        let out = second.execute(mid);
                        assert(first.outcome(context, Ok(a), mid));
                        out
                    },
                    Err(stop) => {
                        assert(first.outcome(context, Err(stop), mid));
                        (Err(stop), mid)
                    },
                }
            },
            Sequenced::Second { second } => second.execute(context),
        }
    }
}

/// A function of two values, called once, as used to combine the values
/// of two computations.
pub trait Join<A, B, C> {
    /// Calling the function on `a` and `b` is allowed.
    spec fn can_join(&self, a: A, b: B) -> bool;

    /// `c` is a value the function may return for `a` and `b`.
    spec fn joins(&self, a: A, b: B, c: C) -> bool;

    /// Calls the function.
    fn join(self, a: A, b: B) -> (c: C)
        requires
            self.can_join(a, b),
        ensures
            self.joins(a, b, c),
    ;
}

impl<A, B, C, H: FnOnce(A, B) -> C> Join<A, B, C> for H {
    open spec fn can_join(&self, a: A, b: B) -> bool {
        self.requires((a, b))
    }

    open spec fn joins(&self, a: A, b: B, c: C) -> bool {
        self.ensures((a, b), c)
    }

    fn join(self, a: A, b: B) -> (c: C) {
        self(a, b)
    }
}

/// Pairs two values.
pub struct Pairing;

impl<A, B> Join<A, B, (A, B)> for Pairing {
    open spec fn can_join(&self, a: A, b: B) -> bool {
        true
    }

    open spec fn joins(&self, a: A, b: B, c: (A, B)) -> bool {
        c == (a, b)
    }

    fn join(self, a: A, b: B) -> (c: (A, B)) {
        (a, b)
    }
}

/// The program of `map2`: the first program, then the second, with their
/// values combined by `function`. When the first or both held their values,
/// those are already taken.
pub enum Zipped<A, B, C, P, Q, H> {
    /// Both programs remain.
    Both {
        /// The program run first.
        first: P,
        /// The program run second.
        second: Q,
        /// The combining function.
        function: H,
        /// Marks the types of the two values.
        values: PhantomData<(A, B)>,
    },
    /// The first value is known; the second program remains.
    Half {
        /// The first value.
        a: A,
        /// The program run second.
        second: Q,
        /// The combining function.
        function: H,
    },
    /// Both values were known and have been combined.
    Ready {
        /// The combined value.
        value: C,
    },
}

impl<E: Effect, A, B, C, P: Program<E, A>, Q: Program<E, B>, H: Join<A, B, C>> Program<E, C> for Zipped<A, B, C, P, Q, H> {
    open spec fn well_formed(&self) -> bool {
        match self {
            Zipped::Both { first, second, function, .. } => {
                &&& first.well_formed()
                &&& second.well_formed()
                &&& forall|c0: E::Context, a: A, c1: E::Context, b: B, c2: E::Context|
                    #[trigger] first.outcome(c0, Ok(a), c1) && #[trigger] second.outcome(c1, Ok(b), c2) ==> function.can_join(a, b)
            },
            Zipped::Half { a, second, function } => {
                &&& second.well_formed()
                &&& forall|c1: E::Context, b: B, c2: E::Context| #[trigger] second.outcome(c1, Ok(b), c2) ==> function.can_join(*a, b)
            },
            Zipped::Ready { .. } => true,
        }
    }

    open spec fn outcome(&self, before: E::Context, result: Result<C, E::Abort>, after: E::Context) -> bool {
        match self {
            Zipped::Both { first, second, function, .. } => {
                ||| exists|mid: E::Context, a: A, b: B, c: C|
                    #[trigger] first.outcome(before, Ok(a), mid) && #[trigger] second.outcome(mid, Ok(b), after)
                        && #[trigger] function.joins(a, b, c) && result == Ok::<C, E::Abort>(c)
                ||| exists|mid: E::Context, a: A, stop: E::Abort|
                    #[trigger] first.outcome(before, Ok(a), mid) && #[trigger] second.outcome(mid, Err(stop), after)
                        && result == Err::<C, E::Abort>(stop)
                ||| exists|stop: E::Abort| #[trigger] first.outcome(before, Err(stop), after) && result == Err::<C, E::Abort>(stop)
            },
            Zipped::Half { a, second, function } => {
                ||| exists|b: B, c: C| #[trigger] second.outcome(before, Ok(b), after) && #[trigger] function.joins(*a, b, c)
                    && result == Ok::<C, E::Abort>(c)
                ||| exists|stop: E::Abort| #[trigger] second.outcome(before, Err(stop), after) && result == Err::<C, E::Abort>(stop)
            },
            Zipped::Ready { value } => result == Ok::<C, E::Abort>(*value) && after == before,
        }
    }

    open spec fn is_value(&self) -> bool {
        self is Ready
    }

    fn holds_value(&self) -> (b: bool) {
        match self {
            Zipped::Ready { .. } => true,
            _ => false,
        }
    }

    fn take_value(self) -> (held: Result<C, Self>) {
        match self {
            Zipped::Ready { value } => Ok(value),
            Zipped::Both { first, second, function, values } => Err(Zipped::Both { first, second, function, values }),
            Zipped::Half { a, second, function } => Err(Zipped::Half { a, second, function }),
        }
    }

    fn execute(self, context: E::Context) -> (out: (Result<C, E::Abort>, E::Context)) {
        match self {
            Zipped::Both { first, second, function, .. } => {
                let (first_result, mid) = first.execute(context);
                match first_result {
                    Ok(a) => {
                        let (second_result, after) = second.execute(mid);
                        match second_result {
                            Ok(b) => {
                                let c = function.join(a, b);
                                assert(first.outcome(context, Ok(a), mid) && second.outcome(mid, Ok(b), after) && function.joins(a, b, c));
                                (Ok(c), after)
                            },
                            Err(stop) => {
                                assert(first.outcome(context, Ok(a), mid) && second.outcome(mid, Err(stop), after));
                                (Err(stop), after)
                            },
                        }
                    },
                    Err(stop) => {
                        assert(first.outcome(context, Err(stop), mid));
                        (Err(stop), mid)
                    },
                }
            },
            Zipped::Half { a, second, function } => {
                let ghost a0 = a;
                let (second_result, after) = second.execute(context);
                match second_result {
                    Ok(b) => {
                        let c = function.join(a, b);
                        assert(second.outcome(context, Ok(b), after) && function.joins(a0, b, c));
                        (Ok(c), after)
                    },
                    Err(stop) => {
                        assert(second.outcome(context, Err(stop), after));
                        (Err(stop), after)
                    },
                }
            },
            Zipped::Ready { value } => (Ok(value), context),
        }
    }
}

impl<E: Effect, A, P: Program<E, A>> Eff<E, A, P> {
    /// Applies `function` to the value of the computation. A computation
    /// that holds its value is mapped at once.
    pub fn fmap<B, F: FnOnce(A) -> B>(self, function: F) -> (eff: Eff<E, B, Mapped<A, B, P, F>>)
        requires
            self.well_formed(),
            forall|before: E::Context, a: A, after: E::Context| #[trigger] self.outcome(before, Ok(a), after) ==> function.requires((a,)),
        ensures
            eff.well_formed(),
            eff.is_value() == self.is_value(),
            forall|before: E::Context, result: Result<B, E::Abort>, after: E::Context| #[trigger] eff.outcome(before, result, after) ==> {
                ||| exists|a: A, b: B| #[trigger] self.outcome(before, Ok(a), after) && #[trigger] function.ensures((a,), b)
                    && result == Ok::<B, E::Abort>(b)
                ||| exists|stop: E::Abort| #[trigger] self.outcome(before, Err(stop), after) && result == Err::<B, E::Abort>(stop)
            },
    {
        let ghost held = self.program;
        match self.program.take_value() {
            Ok(a) => {
            let ghost context = vstd::pervasive::arbitrary::<E::Context>();
            assert(held.outcome(context, Ok(a), context));
            let b = function(a);
            let eff = Eff::new(Mapped::Ready { value: b });
            assert forall|before: E::Context, result: Result<B, E::Abort>, after: E::Context| #[trigger] eff.outcome(before, result, after)
                implies exists|a2: A, b2: B| #[trigger] self.outcome(before, Ok(a2), after) && #[trigger] function.ensures((a2,), b2)
                    && result == Ok::<B, E::Abort>(b2) by {
                assert(held.outcome(before, Ok(a), before));
            }
            eff
            },
            Err(program) => Eff::new(Mapped::Waiting { inner: program, function, intermediate: PhantomData }),
        }
    }
}


/// The outcomes of running `first` and then the computation that
/// `function` chooses for its value; a stop of `first` ends the run.
pub open spec fn bound_outcome<E: Effect, A, B, P: Program<E, A>, Q: Program<E, B>, K: FnOnce(A) -> Eff<E, B, Q>>(
    first: Eff<E, A, P>,
    function: K,
    before: E::Context,
    result: Result<B, E::Abort>,
    after: E::Context,
) -> bool {
    ||| exists|mid: E::Context, a: A, next: Eff<E, B, Q>|
        #[trigger] first.outcome(before, Ok(a), mid) && #[trigger] function.ensures((a,), next) && next.outcome(mid, result, after)
    ||| exists|stop: E::Abort| #[trigger] first.outcome(before, Err(stop), after) && result == Err::<B, E::Abort>(stop)
}

/// The relation between the arguments and results of a joining function.
pub open spec fn joins_rel<A, B, C, H: Join<A, B, C>>(h: H) -> spec_fn(A, B, C) -> bool {
    |a: A, b: B, c: C| h.joins(a, b, c)
}

/// The relation between the arguments and results of a closure of two arguments.
pub open spec fn closure_joins<A, B, C, H: FnOnce(A, B) -> C>(h: H) -> spec_fn(A, B, C) -> bool {
    |a: A, b: B, c: C| h.ensures((a, b), c)
}

/// The relation between two values and their pair.
pub open spec fn pairs_rel<A, B>() -> spec_fn(A, B, (A, B)) -> bool {
    |a: A, b: B, c: (A, B)| c == (a, b)
}

/// The outcomes of running `first`, then `second`, and combining their
/// values by a function whose results `combines` relates to its arguments;
/// a stop of either ends the run.
pub open spec fn joined_outcome<E: Effect, A, B, C, P: Program<E, A>, Q: Program<E, B>>(
    first: Eff<E, A, P>,
    second: Eff<E, B, Q>,
    combines: spec_fn(A, B, C) -> bool,
    before: E::Context,
    result: Result<C, E::Abort>,
    after: E::Context,
) -> bool {
    ||| exists|mid: E::Context, a: A, b: B, c: C|
        #[trigger] first.outcome(before, Ok(a), mid) && #[trigger] second.outcome(mid, Ok(b), after)
            && #[trigger] combines(a, b, c) && result == Ok::<C, E::Abort>(c)
    ||| exists|mid: E::Context, a: A, stop: E::Abort|
        #[trigger] first.outcome(before, Ok(a), mid) && #[trigger] second.outcome(mid, Err(stop), after)
            && result == Err::<C, E::Abort>(stop)
    ||| exists|stop: E::Abort| #[trigger] first.outcome(before, Err(stop), after) && result == Err::<C, E::Abort>(stop)
}

impl<E: Effect, A, P: Program<E, A>> Eff<E, A, P> {
    /// Hands the value of this computation to `function` and continues with
    /// the computation it returns. For a computation that holds its value,
    /// `function` is applied at once.
    pub fn flat_map<B, Q: Program<E, B>, K: FnOnce(A) -> Eff<E, B, Q>>(self, function: K) -> (eff: Eff<E, B, Bound<A, P, K, Q>>)
        requires
            self.well_formed(),
            forall|before: E::Context, a: A, after: E::Context| #[trigger] self.outcome(before, Ok(a), after) ==> function.requires((a,)),
            forall|a: A, next: Eff<E, B, Q>| #[trigger] function.ensures((a,), next) ==> next.well_formed(),
        ensures
            eff.well_formed(),
            eff.is_value() ==> self.is_value(),
            self.is_value() ==> exists|a: A, next: Eff<E, B, Q>|
                #[trigger] self.holds(a) && #[trigger] function.ensures((a,), next) && eff.same_as(next),
            forall|before: E::Context, result: Result<B, E::Abort>, after: E::Context| #[trigger] eff.outcome(before, result, after)
                ==> bound_outcome(self, function, before, result, after),
    {
        let ghost held = self.program;
        match self.program.take_value() {
            Ok(a) => {
            let ghost context = vstd::pervasive::arbitrary::<E::Context>();
            assert(held.outcome(context, Ok(a), context));
            assert(self.holds(a));
            let next = function(a);
            let ghost chosen = next;
            let eff = Eff::new(Bound::Ready { next: next.into_program() });
            assert(eff.same_as(chosen));
            assert forall|before: E::Context, result: Result<B, E::Abort>, after: E::Context| #[trigger] eff.outcome(before, result, after)
                implies bound_outcome(self, function, before, result, after) by {
                assert(held.outcome(before, Ok(a), before));
                assert(self.outcome(before, Ok(a), before) && function.ensures((a,), chosen) && chosen.outcome(before, result, after));
            }
            eff
            },
            Err(program) => {
            let eff = Eff::new(Bound::Waiting { first: program, function, intermediate: PhantomData });
            assert forall|before: E::Context, result: Result<B, E::Abort>, after: E::Context| #[trigger] eff.outcome(before, result, after)
                implies bound_outcome(self, function, before, result, after) by {
                if exists|mid: E::Context, a: A, next: Eff<E, B, Q>|
                    #[trigger] program.outcome(before, Ok(a), mid) && #[trigger] function.ensures((a,), next) && next.outcome(mid, result, after) {
                    let (mid, a, next) = choose|mid: E::Context, a: A, next: Eff<E, B, Q>|
                        #[trigger] program.outcome(before, Ok(a), mid) && #[trigger] function.ensures((a,), next) && next.outcome(mid, result, after);
                    assert(self.outcome(before, Ok(a), mid));
                } else {
                    let stop = choose|stop: E::Abort| #[trigger] program.outcome(before, Err(stop), after) && result == Err::<B, E::Abort>(stop);
                    assert(self.outcome(before, Err(stop), after));
                }
            }
            eff
            },
        }
    }

    /// Another name for [`Eff::flat_map`].
    pub fn and_then<B, Q: Program<E, B>, K: FnOnce(A) -> Eff<E, B, Q>>(self, function: K) -> (eff: Eff<E, B, Bound<A, P, K, Q>>)
        requires
            self.well_formed(),
            forall|before: E::Context, a: A, after: E::Context| #[trigger] self.outcome(before, Ok(a), after) ==> function.requires((a,)),
            forall|a: A, next: Eff<E, B, Q>| #[trigger] function.ensures((a,), next) ==> next.well_formed(),
        ensures
            eff.well_formed(),
            eff.is_value() ==> self.is_value(),
            self.is_value() ==> exists|a: A, next: Eff<E, B, Q>|
                #[trigger] self.holds(a) && #[trigger] function.ensures((a,), next) && eff.same_as(next),
            forall|before: E::Context, result: Result<B, E::Abort>, after: E::Context| #[trigger] eff.outcome(before, result, after)
                ==> bound_outcome(self, function, before, result, after),
    {
        self.flat_map(function)
    }

    /// Runs this computation, discards its value, then runs `next`. For a
    /// computation that holds its value, only `next` remains.
    pub fn then<B, Q: Program<E, B>>(self, next: Eff<E, B, Q>) -> (eff: Eff<E, B, Sequenced<A, P, Q>>)
        requires
            self.well_formed(),
            next.well_formed(),
        ensures
            eff.well_formed(),
            eff.is_value() ==> self.is_value() && next.is_value(),
            self.is_value() ==> eff.same_as(next),
            forall|before: E::Context, result: Result<B, E::Abort>, after: E::Context| #[trigger] eff.outcome(before, result, after) ==> {
                ||| exists|mid: E::Context, a: A| #[trigger] self.outcome(before, Ok(a), mid) && next.outcome(mid, result, after)
                ||| exists|stop: E::Abort| #[trigger] self.outcome(before, Err(stop), after) && result == Err::<B, E::Abort>(stop)
            },
    {
        let ghost held = self.program;
        let second = next.into_program();
        match self.program.take_value() {
            Ok(a) => {
            let eff = Eff::new(Sequenced::Second { second });
            assert forall|before: E::Context, result: Result<B, E::Abort>, after: E::Context| #[trigger] eff.outcome(before, result, after)
                implies exists|mid: E::Context, a2: A| #[trigger] self.outcome(before, Ok(a2), mid) && next.outcome(mid, result, after) by {
                assert(held.outcome(before, Ok(a), before));
            }
            eff
            },
            Err(program) => Eff::new(Sequenced::Both { first: program, second, discarded: PhantomData }),
        }
    }

    /// Runs this computation, then `other`, and combines their values with
    /// `function`. Values that the computations hold are taken at once.
    pub fn map2<B, C, Q: Program<E, B>, H: FnOnce(A, B) -> C>(self, other: Eff<E, B, Q>, function: H) -> (eff: Eff<E, C, Zipped<A, B, C, P, Q, H>>)
        requires
            self.well_formed(),
            other.well_formed(),
            forall|a: A, b: B| #[trigger] function.requires((a, b)),
        ensures
            eff.well_formed(),
            eff.is_value() <==> self.is_value() && other.is_value(),
            forall|before: E::Context, result: Result<C, E::Abort>, after: E::Context| #[trigger] eff.outcome(before, result, after)
                ==> joined_outcome(self, other, closure_joins(function), before, result, after),
    {
        let eff = self.zip_with(other, function);
        assert(joins_rel(function) =~= closure_joins(function));
        eff
    }

    /// Runs this computation, then `other`, and pairs their values.
    pub fn product<B, Q: Program<E, B>>(self, other: Eff<E, B, Q>) -> (eff: Eff<E, (A, B), Zipped<A, B, (A, B), P, Q, Pairing>>)
        requires
            self.well_formed(),
            other.well_formed(),
        ensures
            eff.well_formed(),
            eff.is_value() <==> self.is_value() && other.is_value(),
            forall|before: E::Context, result: Result<(A, B), E::Abort>, after: E::Context| #[trigger] eff.outcome(before, result, after)
                ==> joined_outcome(self, other, pairs_rel(), before, result, after),
    {
        let eff = self.zip_with(other, Pairing);
        assert(joins_rel::<A, B, (A, B), Pairing>(Pairing) =~= pairs_rel::<A, B>());
        eff
    }

    fn zip_with<B, C, Q: Program<E, B>, H: Join<A, B, C>>(self, other: Eff<E, B, Q>, function: H) -> (eff: Eff<E, C, Zipped<A, B, C, P, Q, H>>)
        requires
            self.well_formed(),
            other.well_formed(),
            forall|a: A, b: B| #[trigger] function.can_join(a, b),
        ensures
            eff.well_formed(),
            eff.is_value() <==> self.is_value() && other.is_value(),
            forall|before: E::Context, result: Result<C, E::Abort>, after: E::Context| #[trigger] eff.outcome(before, result, after)
                ==> joined_outcome(self, other, joins_rel(function), before, result, after),
    {
        let ghost held = self.program;
        let ghost held2 = other.program();
        let second = other.into_program();
        match self.program.take_value() {
            Ok(a) => match second.take_value() {
            Ok(b) => {
                let c = function.join(a, b);
                assert(joins_rel(function)(a, b, c));
                let eff = Eff::new(Zipped::Ready { value: c });
                assert forall|before: E::Context, result: Result<C, E::Abort>, after: E::Context| #[trigger] eff.outcome(before, result, after)
                    implies joined_outcome(self, other, joins_rel(function), before, result, after) by {
                    assert(held.outcome(before, Ok(a), before));
                    assert(held2.outcome(before, Ok(b), before));
                }
                eff
            },
            Err(second) => {
                let ghost a0 = a;
                let eff = Eff::new(Zipped::Half { a, second, function });
                assert forall|before: E::Context, result: Result<C, E::Abort>, after: E::Context| #[trigger] eff.outcome(before, result, after)
                    implies joined_outcome(self, other, joins_rel(function), before, result, after) by {
                    assert(held.outcome(before, Ok(a0), before));
                    if exists|b: B, c: C| #[trigger] second.outcome(before, Ok(b), after) && #[trigger] function.joins(a0, b, c)
                        && result == Ok::<C, E::Abort>(c) {
                        let (b, c) = choose|b: B, c: C| #[trigger] second.outcome(before, Ok(b), after) && #[trigger] function.joins(a0, b, c)
                            && result == Ok::<C, E::Abort>(c);
                        assert(other.outcome(before, Ok(b), after));
                        assert(joins_rel(function)(a0, b, c));
                    } else {
                        let stop = choose|stop: E::Abort| #[trigger] second.outcome(before, Err(stop), after) && result == Err::<C, E::Abort>(stop);
                        assert(other.outcome(before, Err(stop), after));
                    }
                }
                eff
            },
            },
            Err(first) => {
            let eff = Eff::new(Zipped::Both { first, second, function, values: PhantomData });
            assert forall|before: E::Context, result: Result<C, E::Abort>, after: E::Context| #[trigger] eff.outcome(before, result, after)
                implies joined_outcome(self, other, joins_rel(function), before, result, after) by {
                if exists|mid: E::Context, a: A, b: B, c: C|
                    #[trigger] first.outcome(before, Ok(a), mid) && #[trigger] second.outcome(mid, Ok(b), after)
                        && #[trigger] function.joins(a, b, c) && result == Ok::<C, E::Abort>(c) {
                    let (mid, a, b, c) = choose|mid: E::Context, a: A, b: B, c: C|
                        #[trigger] first.outcome(before, Ok(a), mid) && #[trigger] second.outcome(mid, Ok(b), after)
                            && #[trigger] function.joins(a, b, c) && result == Ok::<C, E::Abort>(c);
                    assert(self.outcome(before, Ok(a), mid) && other.outcome(mid, Ok(b), after));
                    assert(joins_rel(function)(a, b, c));
                } else if exists|mid: E::Context, a: A, stop: E::Abort|
                    #[trigger] first.outcome(before, Ok(a), mid) && #[trigger] second.outcome(mid, Err(stop), after)
                        && result == Err::<C, E::Abort>(stop) {
                    let (mid, a, stop) = choose|mid: E::Context, a: A, stop: E::Abort|
                        #[trigger] first.outcome(before, Ok(a), mid) && #[trigger] second.outcome(mid, Err(stop), after)
                            && result == Err::<C, E::Abort>(stop);
                    assert(self.outcome(before, Ok(a), mid) && other.outcome(mid, Err(stop), after));
                } else {
                    let stop = choose|stop: E::Abort| #[trigger] first.outcome(before, Err(stop), after) && result == Err::<C, E::Abort>(stop);
                    assert(self.outcome(before, Err(stop), after));
                }
            }
            eff
            },
        }
    }
}
} // verus!
