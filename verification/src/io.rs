//! Deferred computations.
//!
//! An [`IO`] describes an action without running it; the action runs once,
//! when [`IO::run_unsafe`] is called. Combinators build a new description
//! out of old ones and never run anything themselves.
//!
//! An IO is specified by whether its action may run ([`IO::runnable`]) and
//! by the set of values that running it may produce ([`IO::outcomes`]).

use vstd::prelude::*;
use core::marker::PhantomData;
use crate::outcome::{bind, image, once_rel, single};
use vstd::string::StringExecFns;

verus! {

/// An action that runs once and produces a value of type `A`.
///
/// Closures with no argument are actions; the combinators of [`IO`] build
/// their results out of the named action types of this module, so that
/// what a composed action does can be stated in their contracts.
pub trait Action<A> {
    /// Running the action is allowed.
    spec fn ready(&self) -> bool;

    /// `a` is a value that running the action may produce.
    spec fn may_give(&self, a: A) -> bool;

    /// Runs the action.
    fn perform(self) -> (a: A)
        requires
            self.ready(),
        ensures
            self.may_give(a),
    ;
}

impl<A, F: FnOnce() -> A> Action<A> for F {
    open spec fn ready(&self) -> bool {
        self.requires(())
    }

    open spec fn may_give(&self, a: A) -> bool {
        self.ensures((), a)
    }

    fn perform(self) -> (a: A) {
        self()
    }
}

/// The action that produces a value it already holds.
pub struct Ready<A> {
    /// The value produced.
    pub value: A,
}

impl<A> Action<A> for Ready<A> {
    open spec fn ready(&self) -> bool {
        true
    }

    open spec fn may_give(&self, a: A) -> bool {
        a == self.value
    }

    fn perform(self) -> (a: A) {
        self.value
    }
}

/// Runs `inner`, then applies `function` to its result.
pub struct Mapped<A, F, G> {
    /// The action run first.
    pub inner: F,
    /// The function applied to its result.
    pub function: G,
    /// Marks the intermediate type.
    pub intermediate: PhantomData<A>,
}

impl<A, B, F: Action<A>, G: FnOnce(A) -> B> Action<B> for Mapped<A, F, G> {
    open spec fn ready(&self) -> bool {
        &&& self.inner.ready()
        &&& forall|a: A| #[trigger] self.inner.may_give(a) ==> self.function.requires((a,))
    }

    open spec fn may_give(&self, b: B) -> bool {
        exists|a: A| #[trigger] self.inner.may_give(a) && self.function.ensures((a,), b)
    }

    fn perform(self) -> (b: B) {
        let a = self.inner.perform();
        (self.function)(a)
    }
}

/// Runs `first`, hands its result to `function`, and runs the IO that
/// `function` returns.
pub struct Chained<A, F, K> {
    /// The action run first.
    pub first: F,
    /// The continuation.
    pub function: K,
    /// Marks the intermediate type.
    pub intermediate: PhantomData<A>,
}

impl<A, B, F: Action<A>, G: Action<B>, K: FnOnce(A) -> IO<B, G>> Action<B> for Chained<A, F, K> {
    open spec fn ready(&self) -> bool {
        &&& self.first.ready()
        &&& forall|a: A| #[trigger] self.first.may_give(a) ==> self.function.requires((a,))
        &&& forall|a: A, next: IO<B, G>|
            #[trigger] self.first.may_give(a) && #[trigger] self.function.ensures((a,), next) ==> next.runnable()
    }

    open spec fn may_give(&self, b: B) -> bool {
        exists|a: A, next: IO<B, G>|
            #[trigger] self.first.may_give(a) && #[trigger] self.function.ensures((a,), next) && next.yields(b)
    }

    fn perform(self) -> (b: B) {
        let a = self.first.perform();
        let next = (self.function)(a);
        let b = next.run_unsafe();
        assert(self.first.may_give(a) && self.function.ensures((a,), next) && next.yields(b));
        b
    }
}

/// Runs `first`, discards its result, then runs `second`.
pub struct Sequenced<A, F, G> {
    /// The action whose result is discarded.
    pub first: F,
    /// The action whose result is kept.
    pub second: G,
    /// Marks the type of the discarded result.
    pub discarded: PhantomData<A>,
}

impl<A, B, F: Action<A>, G: Action<B>> Action<B> for Sequenced<A, F, G> {
    open spec fn ready(&self) -> bool {
        self.first.ready() && self.second.ready()
    }

    open spec fn may_give(&self, b: B) -> bool {
        self.second.may_give(b)
    }

    fn perform(self) -> (b: B) {
        let _ = self.first.perform();
        self.second.perform()
    }
}

/// Runs `first`, then `second`, and combines both results with `function`.
pub struct Zipped<A, B, F, G, H> {
    /// The action run first.
    pub first: F,
    /// The action run second.
    pub second: G,
    /// The combining function.
    pub function: H,
    /// Marks the types of the two results.
    pub results: PhantomData<(A, B)>,
}

impl<A, B, C, F: Action<A>, G: Action<B>, H: FnOnce(A, B) -> C> Action<C> for Zipped<A, B, F, G, H> {
    open spec fn ready(&self) -> bool {
        &&& self.first.ready()
        &&& self.second.ready()
        &&& forall|a: A, b: B| #[trigger] self.first.may_give(a) && #[trigger] self.second.may_give(b)
            ==> self.function.requires((a, b))
    }

    open spec fn may_give(&self, c: C) -> bool {
        exists|a: A, b: B|
            #[trigger] self.first.may_give(a) && #[trigger] self.second.may_give(b) && self.function.ensures((a, b), c)
    }

    fn perform(self) -> (c: C) {
        let a = self.first.perform();
        let b = self.second.perform();
        let c = (self.function)(a, b);
        assert(self.first.may_give(a) && self.second.may_give(b) && self.function.ensures((a, b), c));
        c
    }
}

/// Runs three actions in order and combines their results with `function`.
pub struct Zipped3<A, B, C, F, G, H, J> {
    /// The action run first.
    pub first: F,
    /// The action run second.
    pub second: G,
    /// The action run third.
    pub third: H,
    /// The combining function.
    pub function: J,
    /// Marks the types of the three results.
    pub results: PhantomData<(A, B, C)>,
}

impl<A, B, C, D, F: Action<A>, G: Action<B>, H: Action<C>, J: FnOnce(A, B, C) -> D> Action<D> for Zipped3<A, B, C, F, G, H, J> {
    open spec fn ready(&self) -> bool {
        &&& self.first.ready()
        &&& self.second.ready()
        &&& self.third.ready()
        &&& forall|a: A, b: B, c: C|
            #[trigger] self.first.may_give(a) && #[trigger] self.second.may_give(b) && #[trigger] self.third.may_give(c)
                ==> self.function.requires((a, b, c))
    }

    open spec fn may_give(&self, d: D) -> bool {
        exists|a: A, b: B, c: C|
            #[trigger] self.first.may_give(a) && #[trigger] self.second.may_give(b) && #[trigger] self.third.may_give(c)
                && self.function.ensures((a, b, c), d)
    }

    fn perform(self) -> (d: D) {
        let a = self.first.perform();
        let b = self.second.perform();
        let c = self.third.perform();
        let d = (self.function)(a, b, c);
        assert(self.first.may_give(a) && self.second.may_give(b) && self.third.may_give(c) && self.function.ensures((a, b, c), d));
        d
    }
}

/// Runs `first`, then `second`, and pairs the results.
pub struct Paired<F, G> {
    /// The action run first.
    pub first: F,
    /// The action run second.
    pub second: G,
}

impl<A, B, F: Action<A>, G: Action<B>> Action<(A, B)> for Paired<F, G> {
    open spec fn ready(&self) -> bool {
        self.first.ready() && self.second.ready()
    }

    open spec fn may_give(&self, p: (A, B)) -> bool {
        self.first.may_give(p.0) && self.second.may_give(p.1)
    }

    fn perform(self) -> (p: (A, B)) {
        let a = self.first.perform();
        let b = self.second.perform();
        (a, b)
    }
}

/// Runs `first`, which produces a function, then `second`, and applies the
/// function to the second result.
pub struct Applied<A, B, F, G> {
    /// The action that produces the function.
    pub first: F,
    /// The action that produces the argument.
    pub second: G,
    /// Marks the function and argument types.
    pub argument: PhantomData<(A, B)>,
}

impl<A: FnOnce(B) -> C, B, C, F: Action<A>, G: Action<B>> Action<C> for Applied<A, B, F, G> {
    open spec fn ready(&self) -> bool {
        &&& self.first.ready()
        &&& self.second.ready()
        &&& forall|f: A, b: B| #[trigger] self.first.may_give(f) && #[trigger] self.second.may_give(b) ==> f.requires((b,))
    }

    open spec fn may_give(&self, c: C) -> bool {
        exists|f: A, b: B| #[trigger] self.first.may_give(f) && #[trigger] self.second.may_give(b) && f.ensures((b,), c)
    }

    fn perform(self) -> (c: C) {
        let f = self.first.perform();
        let b = self.second.perform();
        let c = f(b);
        assert(self.first.may_give(f) && self.second.may_give(b) && f.ensures((b,), c));
        c
    }
}

/// One of two actions, chosen when the description is built.
pub enum Either<F, G> {
    /// The first kind of action.
    Left(F),
    /// The second kind of action.
    Right(G),
}

impl<A, F: Action<A>, G: Action<A>> Action<A> for Either<F, G> {
    open spec fn ready(&self) -> bool {
        match self {
            Either::Left(f) => f.ready(),
            Either::Right(g) => g.ready(),
        }
    }

    open spec fn may_give(&self, a: A) -> bool {
        match self {
            Either::Left(f) => f.may_give(a),
            Either::Right(g) => g.may_give(a),
        }
    }

    fn perform(self) -> (a: A) {
        match self {
            Either::Left(f) => f.perform(),
            Either::Right(g) => g.perform(),
        }
    }
}

/// A deferred computation producing a value of type `A`.
///
/// The action is stored unevaluated and runs only when [`IO::run_unsafe`]
/// is called. The action's type `F` is part of the type so that what the
/// action does can be stated in contracts.
pub struct IO<A, F> {
    run_io: F,
    _marker: PhantomData<A>,
}

impl<A, F> IO<A, F> {
    /// The stored action.
    pub closed spec fn action(&self) -> F {
        self.run_io
    }

    /// Takes out the stored action, without running it.
    pub fn into_action(self) -> (action: F)
        ensures
            action == self.action(),
    {
        self.run_io
    }

    /// A short description of the computation: `<IO>`.
    pub fn to_string(&self) -> (text: String)
        ensures
            text@ == "<IO>"@,
    {
        String::from_str("<IO>")
    }
}

impl<A, F: Action<A>> IO<A, F> {
    /// Running the action is allowed.
    #[verifier::inline]
    pub open spec fn runnable(&self) -> bool {
        self.action().ready()
    }

    /// `a` is a value that running the action may produce.
    #[verifier::inline]
    pub open spec fn yields(&self, a: A) -> bool {
        self.action().may_give(a)
    }

    /// The set of values that running the action may produce.
    pub open spec fn outcomes(&self) -> spec_fn(A) -> bool {
        |a: A| self.yields(a)
    }

    /// Wraps an action of this module's or the crate's own action types.
    pub(crate) fn from_action(action: F) -> (io: Self)
        ensures
            io.action() == action,
    {
        IO { run_io: action, _marker: PhantomData }
    }

    /// Runs the action and returns what it produced.
    pub fn run_unsafe(self) -> (a: A)
        requires
            self.runnable(),
        ensures
            self.yields(a),
    {
        self.run_io.perform()
    }

    /// Applies `function` to the result, once the action has run.
    pub fn fmap<B, G: FnOnce(A) -> B>(self, function: G) -> (io: IO<B, Mapped<A, F, G>>)
        requires
            self.runnable(),
            forall|a: A| #[trigger] self.yields(a) ==> function.requires((a,)),
        ensures
            io.runnable(),
            io.outcomes() == image(self.outcomes(), once_rel(function)),
    {
        let io = IO::from_action(Mapped { inner: self.run_io, function, intermediate: PhantomData });
        assert forall|a: A| #[trigger] self.run_io.may_give(a) implies function.requires((a,)) by {
            assert(self.yields(a));
        }
        assert forall|b: B| #[trigger] io.outcomes()(b) == image(self.outcomes(), once_rel(function))(b) by {
            if io.outcomes()(b) {
                let a = choose|a: A| #[trigger] io.action().inner.may_give(a) && io.action().function.ensures((a,), b);
                assert(self.outcomes()(a) && once_rel(function)(a, b));
            }
            if image(self.outcomes(), once_rel(function))(b) {
                let a = choose|a: A| #[trigger] self.outcomes()(a) && once_rel(function)(a, b);
                assert(io.action().inner.may_give(a) && io.action().function.ensures((a,), b));
                assert(io.action().may_give(b));
            }
        }
        assert(io.outcomes() =~= image(self.outcomes(), once_rel(function)));
        io
    }

    /// Runs the action, hands its result to `function`, and runs the
    /// computation that `function` returns.
    pub fn flat_map<B, G: Action<B>, K: FnOnce(A) -> IO<B, G>>(self, function: K) -> (io: IO<B, Chained<A, F, K>>)
        requires
            self.runnable(),
            forall|a: A| #[trigger] self.yields(a) ==> function.requires((a,)),
            forall|a: A, next: IO<B, G>| #[trigger] self.yields(a) && #[trigger] function.ensures((a,), next) ==> next.runnable(),
        ensures
            io.runnable(),
            io.outcomes() == bind(self.outcomes(), io_kleisli(function)),
    {
        let io = IO::from_action(Chained { first: self.run_io, function, intermediate: PhantomData });
        let ghost s = self.outcomes();
        let ghost k = io_kleisli(function);
        assert forall|a: A| #[trigger] self.run_io.may_give(a) implies function.requires((a,)) by {
            assert(self.yields(a));
        }
        assert forall|a: A, next: IO<B, G>| #[trigger] self.run_io.may_give(a) && #[trigger] function.ensures((a,), next)
            implies next.runnable() by {
            assert(self.yields(a));
        }
        assert forall|b: B| #[trigger] io.outcomes()(b) == bind(s, k)(b) by {
            if io.outcomes()(b) {
                let (a, next) = choose|a: A, next: IO<B, G>|
                    #[trigger] self.run_io.may_give(a) && #[trigger] function.ensures((a,), next) && next.yields(b);
                assert(s(a));
                assert(k(a, next.outcomes()));
                assert(next.outcomes()(b));
                assert(bind(s, k)(b));
            }
            if bind(s, k)(b) {
                let (a, t) = choose|a: A, t: spec_fn(B) -> bool| #[trigger] s(a) && #[trigger] k(a, t) && t(b);
                let next = choose|next: IO<B, G>| #[trigger] function.ensures((a,), next) && next.outcomes() == t;
                assert(self.run_io.may_give(a));
                assert(next.outcomes()(b));
                assert(next.yields(b));
                assert(io.action().first.may_give(a) && io.action().function.ensures((a,), next) && next.yields(b));
                assert(io.action().may_give(b));
                assert(io.outcomes()(b));
            }
        }
        assert(io.outcomes() =~= bind(s, k));
        io
    }

    /// Another name for [`IO::flat_map`].
    pub fn and_then<B, G: Action<B>, K: FnOnce(A) -> IO<B, G>>(self, function: K) -> (io: IO<B, Chained<A, F, K>>)
        requires
            self.runnable(),
            forall|a: A| #[trigger] self.yields(a) ==> function.requires((a,)),
            forall|a: A, next: IO<B, G>| #[trigger] self.yields(a) && #[trigger] function.ensures((a,), next) ==> next.runnable(),
        ensures
            io.runnable(),
            io.outcomes() == bind(self.outcomes(), io_kleisli(function)),
    {
        self.flat_map(function)
    }

    /// Runs this action, discards its result, then runs `next`.
    pub fn then<B, G: Action<B>>(self, next: IO<B, G>) -> (io: IO<B, Sequenced<A, F, G>>)
        requires
            self.runnable(),
            next.runnable(),
        ensures
            io.runnable(),
            io.outcomes() == next.outcomes(),
    {
        let io = IO::from_action(Sequenced { first: self.run_io, second: next.run_io, discarded: PhantomData });
        assert(io.outcomes() =~= next.outcomes());
        io
    }

    /// Runs this action, then `other`, and combines both results.
    pub fn map2<B, C, G: Action<B>, H: FnOnce(A, B) -> C>(self, other: IO<B, G>, function: H) -> (io: IO<C, Zipped<A, B, F, G, H>>)
        requires
            self.runnable(),
            other.runnable(),
            forall|a: A, b: B| #[trigger] self.yields(a) && #[trigger] other.yields(b) ==> function.requires((a, b)),
        ensures
            io.runnable(),
            forall|c: C| #[trigger] io.yields(c) <==> exists|a: A, b: B|
                #[trigger] self.yields(a) && #[trigger] other.yields(b) && function.ensures((a, b), c),
    {
        assert forall|a: A, b: B| #[trigger] self.run_io.may_give(a) && #[trigger] other.run_io.may_give(b)
            implies function.requires((a, b)) by {
            assert(self.yields(a) && other.yields(b));
        }
        IO::from_action(Zipped { first: self.run_io, second: other.run_io, function, results: PhantomData })
    }

    /// Runs this action, then `second`, then `third`, and combines the three results.
    pub fn map3<B, C, D, G: Action<B>, H: Action<C>, J: FnOnce(A, B, C) -> D>(
        self,
        second: IO<B, G>,
        third: IO<C, H>,
        function: J,
    ) -> (io: IO<D, Zipped3<A, B, C, F, G, H, J>>)
        requires
            self.runnable(),
            second.runnable(),
            third.runnable(),
            forall|a: A, b: B, c: C| #[trigger] self.yields(a) && #[trigger] second.yields(b) && #[trigger] third.yields(c)
                ==> function.requires((a, b, c)),
        ensures
            io.runnable(),
            forall|d: D| #[trigger] io.yields(d) <==> exists|a: A, b: B, c: C|
                #[trigger] self.yields(a) && #[trigger] second.yields(b) && #[trigger] third.yields(c)
                    && function.ensures((a, b, c), d),
    {
        assert forall|a: A, b: B, c: C|
            #[trigger] self.run_io.may_give(a) && #[trigger] second.run_io.may_give(b) && #[trigger] third.run_io.may_give(c)
            implies function.requires((a, b, c)) by {
            assert(self.yields(a) && second.yields(b) && third.yields(c));
        }
        IO::from_action(Zipped3 { first: self.run_io, second: second.run_io, third: third.run_io, function, results: PhantomData })
    }

    /// Runs this action, then `other`, and pairs the results.
    pub fn product<B, G: Action<B>>(self, other: IO<B, G>) -> (io: IO<(A, B), Paired<F, G>>)
        requires
            self.runnable(),
            other.runnable(),
        ensures
            io.runnable(),
            forall|p: (A, B)| #[trigger] io.yields(p) <==> self.yields(p.0) && other.yields(p.1),
    {
        IO::from_action(Paired { first: self.run_io, second: other.run_io })
    }

    /// Runs this action, which produces a function, then `other`, and
    /// applies the function to the second result.
    pub fn apply<B, C, G: Action<B>>(self, other: IO<B, G>) -> (io: IO<C, Applied<A, B, F, G>>)
        where A: FnOnce(B) -> C,
        requires
            self.runnable(),
            other.runnable(),
            forall|f: A, b: B| #[trigger] self.yields(f) && #[trigger] other.yields(b) ==> f.requires((b,)),
        ensures
            io.runnable(),
            forall|c: C| #[trigger] io.yields(c) <==> exists|f: A, b: B|
                #[trigger] self.yields(f) && #[trigger] other.yields(b) && f.ensures((b,), c),
    {
        assert forall|f: A, b: B| #[trigger] self.run_io.may_give(f) && #[trigger] other.run_io.may_give(b)
            implies f.requires((b,)) by {
            assert(self.yields(f) && other.yields(b));
        }
        IO::from_action(Applied { first: self.run_io, second: other.run_io, argument: PhantomData })
    }
}

impl<A, F: FnOnce() -> A> IO<A, F> {
    /// Wraps a closure without running it; running the IO calls the closure once.
    pub fn new(action: F) -> (io: Self)
        ensures
            io.action() == action,
            io.runnable() <==> action.requires(()),
            forall|a: A| #[trigger] io.yields(a) <==> action.ensures((), a),
    {
        IO { run_io: action, _marker: PhantomData }
    }
}

impl<A> IO<A, Ready<A>> {
    /// An IO that produces `value` and does nothing else.
    pub fn pure(value: A) -> (io: Self)
        ensures
            io.runnable(),
            io.outcomes() == single(value),
            forall|a: A| #[trigger] io.yields(a) <==> a == value,
    {
        let io = IO::from_action(Ready { value });
        assert(io.outcomes() =~= single(value));
        io
    }
}

/// What a continuation returning an [`IO`] relates each input to: the
/// result sets of the computations it may return.
pub open spec fn io_kleisli<A, B, G: Action<B>, K: FnOnce(A) -> IO<B, G>>(k: K) -> spec_fn(A, spec_fn(B) -> bool) -> bool {
    |a: A, t: spec_fn(B) -> bool| exists|next: IO<B, G>| #[trigger] k.ensures((a,), next) && next.outcomes() == t
}

} // verus!
