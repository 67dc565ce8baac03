//! The Reader monad: computations that read a shared, read-only environment.
//!
//! A `Reader<R, A, F>` produces a value of type `A` from an environment of
//! type `R`. A reader either holds a plain value (`Pure`), which ignores the
//! environment, or an environment-reading function of type `F`
//! (`Deferred`), which runs only when the reader is run.
//!
//! A reader is specified by its model: the relation between environments
//! and the values that running it on them may produce
//! ([`Reader::model`]). The combinators' contracts state the model of the
//! result in terms of the models of the arguments; the monad laws are
//! stated and proved over these models.

use vstd::prelude::*;
use core::marker::PhantomData;
use crate::env_fn::{Apply, AskFn, Combine, EnvFn, NoFunction, Pair, Uncurry3};
use vstd::string::StringExecFns;

verus! {

/// A computation that produces an `A` from an environment of type `R`.
pub enum Reader<R, A, F> {
    /// A value that needs no environment.
    Pure {
        /// The value.
        value: A,
    },
    /// A function of the environment, run when the reader runs.
    Deferred {
        /// The function from environment to result.
        run_function: F,
        /// Marks the environment type.
        environment: PhantomData<R>,
    },
}

/// The model of a reader: which values it may produce from which environment.
pub type ReaderModel<R, A> = spec_fn(R, A) -> bool;

/// The model of a reader that produces `value` whatever the environment.
pub open spec fn pure_model<R, A>(value: A) -> ReaderModel<R, A> {
    |r: R, a: A| a == value
}

/// The model of the reader that returns its environment.
pub open spec fn ask_model<R>() -> ReaderModel<R, R> {
    |r: R, a: R| a == r
}

/// The model of a reader whose results are passed through relation `rel`.
pub open spec fn map_model<R, A, B>(m: ReaderModel<R, A>, rel: spec_fn(A, B) -> bool) -> ReaderModel<R, B> {
    |r: R, b: B| exists|a: A| #[trigger] m(r, a) && rel(a, b)
}

/// The model of sequencing: run `m` on a clone of the environment, choose
/// a next reader by `k` from its result, and run that on the environment.
pub open spec fn bind_model<R: Clone, A, B>(
    m: ReaderModel<R, A>,
    k: spec_fn(A, ReaderModel<R, B>) -> bool,
) -> ReaderModel<R, B> {
    |r: R, b: B| exists|r2: R, a: A, next: ReaderModel<R, B>|
        cloned(r, r2) && #[trigger] m(r2, a) && #[trigger] k(a, next) && next(r, b)
}

/// The model of running `m` on an environment changed by relation `modifier`.
pub open spec fn local_model<R, A>(modifier: spec_fn(R, R) -> bool, m: ReaderModel<R, A>) -> ReaderModel<R, A> {
    |r: R, a: A| exists|r2: R| #[trigger] modifier(r, r2) && m(r2, a)
}

/// The model of combining the results of two readers, run on clones of the
/// environment, with `rel`.
pub open spec fn map2_model<R: Clone, A, B, C>(
    m1: ReaderModel<R, A>,
    m2: ReaderModel<R, B>,
    rel: spec_fn(A, B, C) -> bool,
) -> ReaderModel<R, C> {
    |r: R, c: C| exists|r1: R, a: A, b: B|
        cloned(r, r1) && #[trigger] m1(r1, a) && #[trigger] m2(r, b) && rel(a, b, c)
}

/// Every result that `m1` allows, `m2` allows too.
pub open spec fn model_within<R, A>(m1: ReaderModel<R, A>, m2: ReaderModel<R, A>) -> bool {
    forall|r: R, a: A| #[trigger] m1(r, a) ==> m2(r, a)
}

/// What a continuation returning readers relates each value to: the models
/// of the readers it may return.
pub open spec fn reader_kleisli<R, A, B, G: EnvFn<R, B>, K: Fn(A) -> Reader<R, B, G>>(k: K) -> spec_fn(A, ReaderModel<R, B>) -> bool {
    |a: A, m: ReaderModel<R, B>| exists|next: Reader<R, B, G>| #[trigger] k.ensures((a,), next) && next.model() == m
}

/// The relation between the arguments and results of a combining function.
pub open spec fn combine_rel<A, B, C, H: Combine<A, B, C>>(h: H) -> spec_fn(A, B, C) -> bool {
    |a: A, b: B, c: C| h.produces_from(a, b, c)
}

/// The relation between the arguments and results of a closure of two arguments.
pub open spec fn call_rel<A, B, C, H: Fn(A, B) -> C>(h: H) -> spec_fn(A, B, C) -> bool {
    |a: A, b: B, c: C| h.ensures((a, b), c)
}

/// The relation between two values and their pair.
pub open spec fn pair_rel<A, B>() -> spec_fn(A, B, (A, B)) -> bool {
    |a: A, b: B, c: (A, B)| c == (a, b)
}

/// The relation between a function, its argument and its result.
pub open spec fn apply_rel<A: Fn(B) -> C, B, C>() -> spec_fn(A, B, C) -> bool {
    |f: A, b: B, c: C| f.ensures((b,), c)
}

/// `c` is what combining the results of `first` and `second` by a function
/// whose results `rel` relates to its arguments may give on `r`: two held
/// values are combined as they are; a held value is cloned and combined
/// with the result of the other reader on `r`; two functions run, the
/// first on a clone of `r` and the second on `r`.
pub open spec fn map2_yields<R: Clone, A: Clone, B: Clone, C, F: EnvFn<R, A>, G: EnvFn<R, B>>(
    first: Reader<R, A, F>,
    second: Reader<R, B, G>,
    rel: spec_fn(A, B, C) -> bool,
    r: R,
    c: C,
) -> bool {
    match (first, second) {
        (Reader::Pure { value: a }, Reader::Pure { value: b }) => rel(a, b, c),
        (Reader::Pure { value: a }, Reader::Deferred { .. }) => exists|a2: A, b: B|
            cloned(a, a2) && second.yields(r, b) && #[trigger] rel(a2, b, c),
        (Reader::Deferred { .. }, Reader::Pure { value: b }) => exists|a: A, b2: B|
            first.yields(r, a) && cloned(b, b2) && #[trigger] rel(a, b2, c),
        (Reader::Deferred { .. }, Reader::Deferred { .. }) => exists|r1: R, a: A, b: B|
            cloned(r, r1) && #[trigger] first.yields(r1, a) && second.yields(r, b) && #[trigger] rel(a, b, c),
    }
}

/// `b` is what running `first` and then `next` on `r` may give: the result
/// of `next`, or a clone of the value `next` holds when `first` runs.
pub open spec fn then_yields<R, A, B: Clone, F: EnvFn<R, A>, G: EnvFn<R, B>>(first: Reader<R, A, F>, next: Reader<R, B, G>, r: R, b: B) -> bool {
    match (first, next) {
        (Reader::Deferred { .. }, Reader::Pure { value }) => cloned(value, b),
        _ => next.yields(r, b),
    }
}

/// The relation of a closure of three arguments, called with the parts of a
/// cloned pair and a clone of a third value.
pub open spec fn closure3_rel<A: Clone, B: Clone, C: Clone, D, J: Fn(A, B, C) -> D>(j: J) -> spec_fn((A, B), C, D) -> bool {
    |p: (A, B), c: C, d: D| exists|p2: (A, B), c2: C| cloned(p, p2) && cloned(c, c2) && #[trigger] j.ensures((p2.0, p2.1, c2), d)
}


/// The relation of a combining function applied to clones of its arguments.
pub open spec fn combined_rel<A: Clone, B: Clone, C, H: Combine<A, B, C>>(h: H) -> spec_fn(A, B, C) -> bool {
    |a: A, b: B, c: C| exists|a2: A, b2: B| cloned(a, a2) && cloned(b, b2) && #[trigger] h.produces_from(a2, b2, c)
}

impl<R, A, F: EnvFn<R, A>> Reader<R, A, F> {
    /// Running the reader on `r` is allowed.
    pub open spec fn runnable(&self, r: R) -> bool {
        match self {
            Reader::Pure { .. } => true,
            Reader::Deferred { run_function, .. } => run_function.accepts(r),
        }
    }

    /// `a` is a value that running the reader on `r` may produce.
    pub open spec fn yields(&self, r: R, a: A) -> bool {
        match self {
            Reader::Pure { value } => a == *value,
            Reader::Deferred { run_function, .. } => run_function.produces(r, a),
        }
    }

    /// The reader behaves as `other`: it holds a value exactly when `other`
    /// does, may run on the same environments, and may give the same results.
    pub open spec fn behaves_as<G: EnvFn<R, A>>(&self, other: Reader<R, A, G>) -> bool {
        &&& (self is Pure <==> other is Pure)
        &&& forall|r: R| #[trigger] self.runnable(r) == other.runnable(r)
        &&& forall|r: R, a: A| #[trigger] self.yields(r, a) == other.yields(r, a)
    }

    /// The reader can be run on every environment.
    pub open spec fn total(&self) -> bool {
        forall|r: R| #[trigger] self.runnable(r)
    }

    /// The relation between environments and results of this reader.
    pub open spec fn model(&self) -> ReaderModel<R, A> {
        |r: R, a: A| self.yields(r, a)
    }

    /// Runs the reader with `environment`, consuming it.
    pub fn run(self, environment: R) -> (a: A)
        requires
            self.runnable(environment),
        ensures
            self.yields(environment, a),
    {
        match self {
            Reader::Pure { value } => value,
            Reader::Deferred { run_function, .. } => run_function.run_env(environment),
        }
    }

    /// Runs the reader with `environment`, keeping it; a held value is cloned.
    pub fn run_cloned(&self, environment: R) -> (a: A)
        where A: Clone,
        requires
            self.runnable(environment),
        ensures
            match self {
                Reader::Pure { value } => cloned(*value, a),
                Reader::Deferred { run_function, .. } => run_function.produces(environment, a),
            },
    {
        match self {
            Reader::Pure { value } => value.clone(),
            Reader::Deferred { run_function, .. } => run_function.run_env(environment),
        }
    }
}

impl<R, A, F: Fn(R) -> A> Reader<R, A, F> {
    /// Creates a reader from a function of the environment.
    pub fn new(function: F) -> (reader: Self)
        ensures
            reader matches Reader::Deferred { run_function, .. } && run_function == function,
            forall|r: R| #[trigger] reader.runnable(r) <==> function.requires((r,)),
            forall|r: R, a: A| #[trigger] reader.yields(r, a) <==> function.ensures((r,), a),
    {
        Reader::Deferred { run_function: function, environment: PhantomData }
    }

    /// Creates a reader that projects a value out of the environment.
    pub fn asks(projection: F) -> (reader: Self)
        ensures
            reader matches Reader::Deferred { run_function, .. } && run_function == projection,
            forall|r: R| #[trigger] reader.runnable(r) <==> projection.requires((r,)),
            forall|r: R, a: A| #[trigger] reader.yields(r, a) <==> projection.ensures((r,), a),
    {
        Reader::Deferred { run_function: projection, environment: PhantomData }
    }
}

impl<R, A> Reader<R, A, NoFunction> {
    /// Creates a reader that returns `value` and ignores the environment.
    pub fn pure(value: A) -> (reader: Self)
        ensures
            reader == (Reader::<R, A, NoFunction>::Pure { value }),
    {
        Reader::Pure { value }
    }
}

impl<R> Reader<R, R, AskFn> {
    /// Creates a reader that returns the whole environment.
    pub fn ask() -> (reader: Self)
        ensures
            reader.total(),
            reader.model() == ask_model::<R>(),
            reader is Deferred,
    {
        let reader = Reader::Deferred { run_function: AskFn, environment: PhantomData };
        assert(reader.model() =~= ask_model::<R>());
        reader
    }
}

} // verus!

verus! {

/// The function of a mapped reader: the inner function, then `function`.
pub struct MapFn<A, F, G> {
    /// The function of the reader being mapped.
    pub inner: F,
    /// The function applied to its result.
    pub function: G,
    /// Marks the intermediate type.
    pub intermediate: PhantomData<A>,
}

impl<R, A, B, F: EnvFn<R, A>, G: Fn(A) -> B> EnvFn<R, B> for MapFn<A, F, G> {
    open spec fn accepts(&self, r: R) -> bool {
        self.inner.accepts(r) && forall|a: A| self.inner.produces(r, a) ==> self.function.requires((a,))
    }

    open spec fn produces(&self, r: R, b: B) -> bool {
        exists|a: A| self.inner.produces(r, a) && self.function.ensures((a,), b)
    }

    fn run_env(&self, r: R) -> (b: B) {
        let a = self.inner.run_env(r);
        (self.function)(a)
    }
}

/// The function of a reader built by `flat_map`.
pub enum FlatMapFn<A, F, K, G> {
    /// Run `first` on a clone of the environment, pass its result to
    /// `function`, and run the returned reader on the environment.
    Chain {
        /// The function of the first reader.
        first: F,
        /// The continuation.
        function: K,
        /// Marks the intermediate type.
        intermediate: PhantomData<A>,
    },
    /// Run the function of the reader that the continuation already returned.
    Direct {
        /// That function.
        next: G,
    },
}

impl<R: Clone, A, B, F: EnvFn<R, A>, G: EnvFn<R, B>, K: Fn(A) -> Reader<R, B, G>> EnvFn<R, B> for FlatMapFn<A, F, K, G> {
    open spec fn accepts(&self, r: R) -> bool {
        match self {
            FlatMapFn::Chain { first, function, .. } => {
                &&& forall|r2: R| cloned(r, r2) ==> #[trigger] first.accepts(r2)
                &&& forall|r2: R, a: A| cloned(r, r2) && #[trigger] first.produces(r2, a) ==> function.requires((a,))
                &&& forall|r2: R, a: A, next: Reader<R, B, G>|
                    cloned(r, r2) && #[trigger] first.produces(r2, a) && #[trigger] function.ensures((a,), next)
                        ==> next.runnable(r)
            },
            FlatMapFn::Direct { next } => next.accepts(r),
        }
    }

    open spec fn produces(&self, r: R, b: B) -> bool {
        match self {
            FlatMapFn::Chain { first, function, .. } => exists|r2: R, a: A, next: Reader<R, B, G>|
                cloned(r, r2) && #[trigger] first.produces(r2, a) && #[trigger] function.ensures((a,), next)
                    && next.yields(r, b),
            FlatMapFn::Direct { next } => next.produces(r, b),
        }
    }

    fn run_env(&self, r: R) -> (b: B) {
        match self {
            FlatMapFn::Chain { first, function, .. } => {
                let r2 = r.clone();
                let a = first.run_env(r2);
                let next = function(a);
                assert(first.produces(r2, a) && function.ensures((a,), next));
                match next {
                    Reader::Pure { value } => value,
                    Reader::Deferred { run_function, .. } => run_function.run_env(r),
                }
            },
            FlatMapFn::Direct { next } => next.run_env(r),
        }
    }
}

/// The function of a reader built by `then`.
pub enum ThenFn<A, B, F, G> {
    /// Run `first` on the environment, then return a clone of `value`.
    RunThenValue {
        /// The function of the first reader.
        first: F,
        /// The value of the second reader.
        value: B,
        /// Marks the type of the discarded result.
        discarded: PhantomData<A>,
    },
    /// Run `first` on a clone of the environment, then `second` on it.
    RunThenRun {
        /// The function of the first reader.
        first: F,
        /// The function of the second reader.
        second: G,
        /// Marks the type of the discarded result.
        discarded: PhantomData<A>,
    },
    /// Run only the function of the second reader.
    Second {
        /// The function of the second reader.
        second: G,
    },
}

impl<R: Clone, A, B: Clone, F: EnvFn<R, A>, G: EnvFn<R, B>> EnvFn<R, B> for ThenFn<A, B, F, G> {
    open spec fn accepts(&self, r: R) -> bool {
        match self {
            ThenFn::RunThenValue { first, .. } => first.accepts(r),
            ThenFn::RunThenRun { first, second, .. } =>
                (forall|r2: R| cloned(r, r2) ==> #[trigger] first.accepts(r2)) && second.accepts(r),
            ThenFn::Second { second } => second.accepts(r),
        }
    }

    open spec fn produces(&self, r: R, b: B) -> bool {
        match self {
            ThenFn::RunThenValue { value, .. } => cloned(*value, b),
            ThenFn::RunThenRun { second, .. } => second.produces(r, b),
            ThenFn::Second { second } => second.produces(r, b),
        }
    }

    fn run_env(&self, r: R) -> (b: B) {
        match self {
            ThenFn::RunThenValue { first, value, .. } => {
                let _ = first.run_env(r);
                value.clone()
            },
            ThenFn::RunThenRun { first, second, .. } => {
                let r2 = r.clone();
                let _ = first.run_env(r2);
                second.run_env(r)
            },
            ThenFn::Second { second } => second.run_env(r),
        }
    }
}

/// The function of a reader built by `map2`.
pub enum Map2Fn<A, B, F, G, H> {
    /// The first reader held `a`; run the second one.
    ValueThenRun {
        /// The value of the first reader.
        a: A,
        /// The function of the second reader.
        second: G,
        /// The combining function.
        function: H,
    },
    /// Run the first reader; the second one held `b`.
    RunThenValue {
        /// The function of the first reader.
        first: F,
        /// The value of the second reader.
        b: B,
        /// The combining function.
        function: H,
    },
    /// Run the first reader on a clone of the environment, then the second one.
    RunThenRun {
        /// The function of the first reader.
        first: F,
        /// The function of the second reader.
        second: G,
        /// The combining function.
        function: H,
    },
}

impl<R: Clone, A: Clone, B: Clone, C, F: EnvFn<R, A>, G: EnvFn<R, B>, H: Combine<A, B, C>> EnvFn<R, C> for Map2Fn<A, B, F, G, H> {
    open spec fn accepts(&self, r: R) -> bool {
        match self {
            Map2Fn::ValueThenRun { a, second, function } => second.accepts(r)
                && forall|a2: A, b: B| cloned(*a, a2) && second.produces(r, b) ==> #[trigger] function.accepts_pair(a2, b),
            Map2Fn::RunThenValue { first, b, function } => first.accepts(r)
                && forall|a: A, b2: B| first.produces(r, a) && cloned(*b, b2) ==> #[trigger] function.accepts_pair(a, b2),
            Map2Fn::RunThenRun { first, second, function } => {
                &&& forall|r1: R| cloned(r, r1) ==> #[trigger] first.accepts(r1)
                &&& second.accepts(r)
                &&& forall|r1: R, a: A, b: B| cloned(r, r1) && #[trigger] first.produces(r1, a) && #[trigger] second.produces(r, b)
                    ==> function.accepts_pair(a, b)
            },
        }
    }

    open spec fn produces(&self, r: R, c: C) -> bool {
        match self {
            Map2Fn::ValueThenRun { a, second, function } => exists|a2: A, b: B|
                cloned(*a, a2) && second.produces(r, b) && #[trigger] function.produces_from(a2, b, c),
            Map2Fn::RunThenValue { first, b, function } => exists|a: A, b2: B|
                first.produces(r, a) && cloned(*b, b2) && #[trigger] function.produces_from(a, b2, c),
            Map2Fn::RunThenRun { first, second, function } => exists|r1: R, a: A, b: B|
                cloned(r, r1) && #[trigger] first.produces(r1, a) && #[trigger] second.produces(r, b)
                    && function.produces_from(a, b, c),
        }
    }

    fn run_env(&self, r: R) -> (c: C) {
        match self {
            Map2Fn::ValueThenRun { a, second, function } => {
                let b = second.run_env(r);
                let a2 = a.clone();
                let c = function.combine(a2, b);
                assert(cloned(*a, a2) && second.produces(r, b) && function.produces_from(a2, b, c));
                c
            },
            Map2Fn::RunThenValue { first, b, function } => {
                let a = first.run_env(r);
                let b2 = b.clone();
                let c = function.combine(a, b2);
                assert(first.produces(r, a) && cloned(*b, b2) && function.produces_from(a, b2, c));
                c
            },
            Map2Fn::RunThenRun { first, second, function } => {
                let r1 = r.clone();
                let a = first.run_env(r1);
                let b = second.run_env(r);
                let c = function.combine(a, b);
                assert(cloned(r, r1) && first.produces(r1, a) && second.produces(r, b) && function.produces_from(a, b, c));
                c
            },
        }
    }
}

/// The function of a reader built by `local`: change the environment, then
/// run the inner function on the changed one.
pub struct LocalFn<M, F> {
    /// The function that changes the environment.
    pub modifier: M,
    /// The function of the reader run on the changed environment.
    pub inner: F,
}

impl<R, A, M: Fn(R) -> R, F: EnvFn<R, A>> EnvFn<R, A> for LocalFn<M, F> {
    open spec fn accepts(&self, r: R) -> bool {
        self.modifier.requires((r,)) && forall|r2: R| self.modifier.ensures((r,), r2) ==> #[trigger] self.inner.accepts(r2)
    }

    open spec fn produces(&self, r: R, a: A) -> bool {
        exists|r2: R| #[trigger] self.modifier.ensures((r,), r2) && self.inner.produces(r2, a)
    }

    fn run_env(&self, r: R) -> (a: A) {
        let r2 = (self.modifier)(r);
        self.inner.run_env(r2)
    }
}

} // verus!

verus! {

impl<R, A, F: EnvFn<R, A>> Reader<R, A, F> {
    /// Applies `function` to the result of this reader.
    ///
    /// A held value is mapped at once; a function of the environment is
    /// composed with `function` and runs when the reader runs.
    pub fn fmap<B, G: Fn(A) -> B>(self, function: G) -> (reader: Reader<R, B, MapFn<A, F, G>>)
        requires
            forall|r: R, a: A| #[trigger] self.yields(r, a) ==> function.requires((a,)),
        ensures
            reader is Pure <==> self is Pure,
            forall|r: R| self.runnable(r) ==> #[trigger] reader.runnable(r),
            model_within(reader.model(), map_model(self.model(), crate::outcome::fn_rel(function))),
            self matches Reader::Pure { value } ==> (reader matches Reader::Pure { value: b } && function.ensures((value,), b)),
            self is Deferred ==> reader.model() == map_model(self.model(), crate::outcome::fn_rel(function)),
    {
        match self {
            Reader::Pure { value } => {
                assert(self.yields(vstd::pervasive::arbitrary::<R>(), value));
                let b = function(value);
                let reader = Reader::Pure { value: b };
                assert forall|r: R, x: B| #[trigger] reader.model()(r, x) implies map_model(self.model(), crate::outcome::fn_rel(function))(r, x) by {
                    assert(self.model()(r, value));
                }
                reader
            },
            Reader::Deferred { run_function, environment } => {
                let reader = Reader::Deferred {
                    run_function: MapFn { inner: run_function, function, intermediate: PhantomData },
                    environment,
                };
                assert forall|r: R| self.runnable(r) implies #[trigger] reader.runnable(r) by {
                    assert forall|a: A| run_function.produces(r, a) implies function.requires((a,)) by {
                        assert(self.yields(r, a));
                    }
                }
                assert forall|r: R, x: B| #[trigger] reader.model()(r, x) == map_model(self.model(), crate::outcome::fn_rel(function))(r, x) by {
                    if reader.model()(r, x) {
                        let a = choose|a: A| run_function.produces(r, a) && function.ensures((a,), x);
                        assert(self.model()(r, a) && crate::outcome::fn_rel(function)(a, x));
                    }
                    if map_model(self.model(), crate::outcome::fn_rel(function))(r, x) {
                        let a = choose|a: A| #[trigger] self.model()(r, a) && crate::outcome::fn_rel(function)(a, x);
                        let ghost mf = MapFn { inner: run_function, function, intermediate: PhantomData::<A> };
                        assert(mf.inner.produces(r, a) && mf.function.ensures((a,), x));
                        assert(EnvFn::<R, B>::produces(&mf, r, x));
                    }
                }
                assert(reader.model() =~= map_model(self.model(), crate::outcome::fn_rel(function)));
                reader
            },
        }
    }

    /// Chains this reader with `function`, which picks the next reader from
    /// this one's result; the next reader runs on the same environment.
    pub fn flat_map<B, G: EnvFn<R, B>, K: Fn(A) -> Reader<R, B, G>>(self, function: K) -> (reader: Reader<R, B, FlatMapFn<A, F, K, G>>)
        where R: Clone,
        requires
            self.total(),
            forall|r: R, a: A| #[trigger] self.yields(r, a) ==> function.requires((a,)),
            forall|r: R, a: A, next: Reader<R, B, G>| #[trigger] self.yields(r, a) && #[trigger] function.ensures((a,), next) ==> next.total(),
        ensures
            reader.total(),
            model_within(reader.model(), bind_model(self.model(), reader_kleisli(function))),
            self is Deferred ==> reader is Deferred,
            self matches Reader::Pure { value } ==> exists|next: Reader<R, B, G>|
                #[trigger] function.ensures((value,), next) && reader.behaves_as(next),
    {
        match self {
            Reader::Pure { value } => {
                assert(self.yields(vstd::pervasive::arbitrary::<R>(), value));
                let next = function(value);
                assert(next.total());
                assert(reader_kleisli(function)(value, next.model()));
                assert(forall|r: R| cloned(r, r));
                match next {
                    Reader::Pure { value: b } => {
                        let reader = Reader::Pure { value: b };
                        assert(reader.behaves_as(next));
                        assert forall|r: R, x: B| #[trigger] reader.model()(r, x) implies bind_model(self.model(), reader_kleisli(function))(r, x) by {
                            assert(cloned(r, r) && self.model()(r, value) && next.model()(r, x));
                        }
                        reader
                    },
                    Reader::Deferred { run_function, environment } => {
                        let reader = Reader::Deferred { run_function: FlatMapFn::Direct { next: run_function }, environment };
                        assert(reader.behaves_as(next));
                        assert forall|r: R| #[trigger] reader.runnable(r) by {
                            assert(next.runnable(r));
                        }
                        assert forall|r: R, x: B| #[trigger] reader.model()(r, x) implies bind_model(self.model(), reader_kleisli(function))(r, x) by {
                            assert(cloned(r, r) && self.model()(r, value) && next.model()(r, x));
                        }
                        reader
                    },
                }
            },
            Reader::Deferred { run_function, environment } => {
                let reader = Reader::Deferred {
                    run_function: FlatMapFn::Chain { first: run_function, function, intermediate: PhantomData },
                    environment,
                };
                assert forall|r: R| #[trigger] reader.runnable(r) by {
                    assert forall|r2: R| cloned(r, r2) implies #[trigger] run_function.accepts(r2) by {
                        assert(self.runnable(r2));
                    }
                    assert forall|r2: R, a: A| cloned(r, r2) && #[trigger] run_function.produces(r2, a) implies function.requires((a,)) by {
                        assert(self.yields(r2, a));
                    }
                    assert forall|r2: R, a: A, next: Reader<R, B, G>|
                        cloned(r, r2) && #[trigger] run_function.produces(r2, a) && #[trigger] function.ensures((a,), next)
                        implies next.runnable(r) by {
                        assert(self.yields(r2, a));
                        assert(next.total());
                    }
                }
                assert forall|r: R, x: B| #[trigger] reader.model()(r, x) implies bind_model(self.model(), reader_kleisli(function))(r, x) by {
                    let (r2, a, next) = choose|r2: R, a: A, next: Reader<R, B, G>|
                        cloned(r, r2) && run_function.produces(r2, a) && function.ensures((a,), next) && next.yields(r, x);
                    assert(reader_kleisli(function)(a, next.model()));
                    assert(self.model()(r2, a) && next.model()(r, x));
                }
                reader
            },
        }
    }

    /// Another name for [`Reader::flat_map`].
    pub fn and_then<B, G: EnvFn<R, B>, K: Fn(A) -> Reader<R, B, G>>(self, function: K) -> (reader: Reader<R, B, FlatMapFn<A, F, K, G>>)
        where R: Clone,
        requires
            self.total(),
            forall|r: R, a: A| #[trigger] self.yields(r, a) ==> function.requires((a,)),
            forall|r: R, a: A, next: Reader<R, B, G>| #[trigger] self.yields(r, a) && #[trigger] function.ensures((a,), next) ==> next.total(),
        ensures
            reader.total(),
            model_within(reader.model(), bind_model(self.model(), reader_kleisli(function))),
            self is Deferred ==> reader is Deferred,
            self matches Reader::Pure { value } ==> exists|next: Reader<R, B, G>|
                #[trigger] function.ensures((value,), next) && reader.behaves_as(next),
    {
        self.flat_map(function)
    }

    /// Runs this reader for its effect on nothing, then `next`; the result
    /// is that of `next` (a value that `next` holds is cloned).
    pub fn then<B: Clone, G: EnvFn<R, B>>(self, next: Reader<R, B, G>) -> (reader: Reader<R, B, ThenFn<A, B, F, G>>)
        where R: Clone,
        requires
            self.total(),
            next.total(),
        ensures
            reader.total(),
            reader is Pure <==> (self is Pure && next is Pure),
            forall|r: R, b: B| #[trigger] reader.yields(r, b) <==> then_yields(self, next, r, b),
            self is Pure ==> reader.behaves_as(next),
    {
        match self {
            Reader::Pure { .. } => match next {
                Reader::Pure { value } => {
                    let reader = Reader::Pure { value };
                    reader
                },
                Reader::Deferred { run_function, environment } => {
                    let reader = Reader::Deferred { run_function: ThenFn::Second { second: run_function }, environment };
                    assert forall|r: R| #[trigger] reader.runnable(r) by {
                        assert(next.runnable(r));
                    }
                    reader
                },
            },
            Reader::Deferred { run_function, environment } => match next {
                Reader::Pure { value } => {
                    let reader = Reader::Deferred {
                        run_function: ThenFn::RunThenValue { first: run_function, value, discarded: PhantomData },
                        environment,
                    };
                    assert forall|r: R| #[trigger] reader.runnable(r) by {
                        assert(self.runnable(r));
                    }
                    reader
                },
                Reader::Deferred { run_function: second, .. } => {
                    let reader = Reader::Deferred {
                        run_function: ThenFn::RunThenRun { first: run_function, second, discarded: PhantomData },
                        environment,
                    };
                    assert forall|r: R| #[trigger] reader.runnable(r) by {
                        assert(next.runnable(r));
                        assert forall|r2: R| cloned(r, r2) implies #[trigger] run_function.accepts(r2) by {
                            assert(self.runnable(r2));
                        }
                    }
                    reader
                },
            },
        }
    }

    /// Combines the results of this reader and `other` with `function`.
    ///
    /// Two held values are combined at once; otherwise the combination runs
    /// when the reader runs, this reader on a clone of the environment.
    fn zip_with<B: Clone, C, G: EnvFn<R, B>, H: Combine<A, B, C>>(self, other: Reader<R, B, G>, function: H) -> (reader: Reader<R, C, Map2Fn<A, B, F, G, H>>)
        where R: Clone, A: Clone,
        requires
            self.total(),
            other.total(),
            forall|a: A, b: B| #[trigger] function.accepts_pair(a, b),
        ensures
            reader.total(),
            reader is Pure <==> (self is Pure && other is Pure),
            model_within(reader.model(), map2_model(self.model(), other.model(), combined_rel(function))),
            forall|r: R, c: C| #[trigger] reader.yields(r, c) ==> map2_yields(self, other, combine_rel(function), r, c),
    {
        assert(forall|r: R| cloned(r, r));
        assert(forall|a: A| cloned(a, a));
        assert(forall|b: B| cloned(b, b));
        let ghost m = map2_model(self.model(), other.model(), combined_rel(function));
        match self {
            Reader::Pure { value: a } => match other {
                Reader::Pure { value: b } => {
                    let c = function.combine(a, b);
                    let reader = Reader::Pure { value: c };
                    assert(combine_rel(function)(a, b, c));
                    assert forall|r: R, x: C| #[trigger] reader.model()(r, x) implies m(r, x) by {
                        assert(cloned(r, r) && self.model()(r, a) && other.model()(r, b) && combined_rel(function)(a, b, x));
                    }
                    reader
                },
                Reader::Deferred { run_function, environment } => {
                    let reader = Reader::Deferred { run_function: Map2Fn::ValueThenRun { a, second: run_function, function }, environment };
                    assert forall|r: R, x: C| #[trigger] reader.yields(r, x) implies map2_yields(self, other, combine_rel(function), r, x) by {
                        let (a2, b) = choose|a2: A, b: B| cloned(a, a2) && run_function.produces(r, b) && function.produces_from(a2, b, x);
                        assert(other.yields(r, b) && combine_rel(function)(a2, b, x));
                    }
                    assert forall|r: R| #[trigger] reader.runnable(r) by {
                        assert(other.runnable(r));
                    }
                    assert forall|r: R, x: C| #[trigger] reader.model()(r, x) implies m(r, x) by {
                        let (a2, b) = choose|a2: A, b: B| cloned(a, a2) && run_function.produces(r, b) && function.produces_from(a2, b, x);
                        assert(cloned(b, b) && combined_rel(function)(a, b, x));
                        assert(cloned(r, r) && self.model()(r, a) && other.model()(r, b));
                    }
                    reader
                },
            },
            Reader::Deferred { run_function, environment } => match other {
                Reader::Pure { value: b } => {
                    let reader = Reader::Deferred { run_function: Map2Fn::RunThenValue { first: run_function, b, function }, environment };
                    assert forall|r: R, x: C| #[trigger] reader.yields(r, x) implies map2_yields(self, other, combine_rel(function), r, x) by {
                        let (a, b2) = choose|a: A, b2: B| run_function.produces(r, a) && cloned(b, b2) && function.produces_from(a, b2, x);
                        assert(self.yields(r, a) && combine_rel(function)(a, b2, x));
                    }
                    assert forall|r: R| #[trigger] reader.runnable(r) by {
                        assert(self.runnable(r));
                    }
                    assert forall|r: R, x: C| #[trigger] reader.model()(r, x) implies m(r, x) by {
                        let (a, b2) = choose|a: A, b2: B| run_function.produces(r, a) && cloned(b, b2) && function.produces_from(a, b2, x);
                        assert(cloned(a, a) && combined_rel(function)(a, b, x));
                        assert(cloned(r, r) && self.model()(r, a) && other.model()(r, b));
                    }
                    reader
                },
                Reader::Deferred { run_function: second, .. } => {
                    let reader = Reader::Deferred { run_function: Map2Fn::RunThenRun { first: run_function, second, function }, environment };
                    assert forall|r: R, x: C| #[trigger] reader.yields(r, x) implies map2_yields(self, other, combine_rel(function), r, x) by {
                        let (r1, a, b) = choose|r1: R, a: A, b: B| cloned(r, r1) && run_function.produces(r1, a) && second.produces(r, b) && function.produces_from(a, b, x);
                        assert(self.yields(r1, a) && other.yields(r, b) && combine_rel(function)(a, b, x));
                    }
                    assert forall|r: R| #[trigger] reader.runnable(r) by {
                        assert(other.runnable(r));
                        assert forall|r1: R| cloned(r, r1) implies #[trigger] run_function.accepts(r1) by {
                            assert(self.runnable(r1));
                        }
                    }
                    assert forall|r: R, x: C| #[trigger] reader.model()(r, x) implies m(r, x) by {
                        let (r1, a, b) = choose|r1: R, a: A, b: B| cloned(r, r1) && run_function.produces(r1, a) && second.produces(r, b) && function.produces_from(a, b, x);
                        assert(cloned(a, a) && cloned(b, b) && combined_rel(function)(a, b, x));
                        assert(self.model()(r1, a) && other.model()(r, b));
                    }
                    reader
                },
            },
        }
    }

    /// Combines the results of this reader and `other` with `function`.
    ///
    /// Two held values are combined at once; otherwise the combination runs
    /// when the reader runs, this reader on a clone of the environment.
    pub fn map2<B: Clone, C, G: EnvFn<R, B>, H: Fn(A, B) -> C>(self, other: Reader<R, B, G>, function: H) -> (reader: Reader<R, C, Map2Fn<A, B, F, G, H>>)
        where R: Clone, A: Clone,
        requires
            self.total(),
            other.total(),
            forall|a: A, b: B| #[trigger] function.requires((a, b)),
        ensures
            reader.total(),
            reader is Pure <==> (self is Pure && other is Pure),
            forall|r: R, c: C| #[trigger] reader.yields(r, c) ==> map2_yields(self, other, call_rel(function), r, c),
    {
        assert(combine_rel(function) =~= call_rel(function));
        self.zip_with(other, function)
    }

    /// Pairs the results of this reader and `other`.
    pub fn product<B: Clone, G: EnvFn<R, B>>(self, other: Reader<R, B, G>) -> (reader: Reader<R, (A, B), Map2Fn<A, B, F, G, Pair>>)
        where R: Clone, A: Clone,
        requires
            self.total(),
            other.total(),
        ensures
            reader.total(),
            reader is Pure <==> (self is Pure && other is Pure),
            forall|r: R, c: (A, B)| #[trigger] reader.yields(r, c) ==> map2_yields(self, other, pair_rel(), r, c),
    {
        assert(combine_rel::<A, B, (A, B), Pair>(Pair) =~= pair_rel::<A, B>());
        self.zip_with(other, Pair)
    }

    /// Combines the results of this reader, `second` and `third` with
    /// `function`: the first two are paired, then the pair is combined with
    /// the third.
    pub fn map3<B: Clone, C: Clone, D, G: EnvFn<R, B>, H: EnvFn<R, C>, J: Fn(A, B, C) -> D>(
        self,
        second: Reader<R, B, G>,
        third: Reader<R, C, H>,
        function: J,
    ) -> (reader: Reader<R, D, Map2Fn<(A, B), C, Map2Fn<A, B, F, G, Pair>, H, Uncurry3<J>>>)
        where R: Clone, A: Clone,
        requires
            self.total(),
            second.total(),
            third.total(),
            forall|a: A, b: B, c: C| #[trigger] function.requires((a, b, c)),
        ensures
            reader.total(),
            reader is Pure <==> (self is Pure && second is Pure && third is Pure),
            model_within(reader.model(), map2_model(
                map2_model(self.model(), second.model(), combined_rel(Pair)),
                third.model(),
                closure3_rel(function),
            )),
    {
        let paired = self.zip_with(second, Pair);
        let combiner = Uncurry3 { function };
        assert forall|p: (A, B), c: C| #[trigger] combiner.accepts_pair(p, c) by {
            assert(function.requires((p.0, p.1, c)));
        }
        let reader = paired.zip_with(third, combiner);
        assert forall|r: R, x: D| #[trigger] reader.model()(r, x) implies map2_model(
            map2_model(self.model(), second.model(), combined_rel(Pair)),
            third.model(),
            closure3_rel(function),
        )(r, x) by {
            let (r1, p, c) = choose|r1: R, p: (A, B), c: C|
                cloned(r, r1) && #[trigger] paired.model()(r1, p) && #[trigger] third.model()(r, c) && combined_rel(combiner)(p, c, x);
        }
        reader
    }

    /// Applies the function that this reader produces to the result of `other`.
    pub fn apply<B: Clone, C, G: EnvFn<R, B>>(self, other: Reader<R, B, G>) -> (reader: Reader<R, C, Map2Fn<A, B, F, G, Apply>>)
        where R: Clone, A: Clone + Fn(B) -> C,
        requires
            self.total(),
            other.total(),
            forall|a: A, b: B| #[trigger] a.requires((b,)),
        ensures
            reader.total(),
            reader is Pure <==> (self is Pure && other is Pure),
            forall|r: R, c: C| #[trigger] reader.yields(r, c) ==> map2_yields(self, other, apply_rel::<A, B, C>(), r, c),
    {
        assert(combine_rel::<A, B, C, Apply>(Apply) =~= apply_rel::<A, B, C>());
        self.zip_with(other, Apply)
    }

    /// Runs a computation on an environment changed by `modifier`.
    ///
    /// A reader that holds a value reads no environment and is returned as it is.
    pub fn local<M: Fn(R) -> R>(modifier: M, computation: Self) -> (reader: Reader<R, A, LocalFn<M, F>>)
        requires
            computation.total(),
            forall|r: R| #[trigger] modifier.requires((r,)),
        ensures
            reader.total(),
            reader is Pure <==> computation is Pure,
            computation is Pure ==> reader.model() == computation.model(),
            computation is Deferred ==> model_within(reader.model(), local_model(crate::outcome::fn_rel(modifier), computation.model())),
            computation matches Reader::Pure { value } ==> reader == (Reader::<R, A, LocalFn<M, F>>::Pure { value }),
            computation is Deferred ==> reader.model() == local_model(crate::outcome::fn_rel(modifier), computation.model()),
    {
        match computation {
            Reader::Pure { value } => {
                let reader = Reader::Pure { value };
                assert(reader.model() =~= computation.model());
                reader
            },
            Reader::Deferred { run_function, environment } => {
                let reader = Reader::Deferred { run_function: LocalFn { modifier, inner: run_function }, environment };
                assert forall|r: R| #[trigger] reader.runnable(r) by {
                    assert forall|r2: R| modifier.ensures((r,), r2) implies #[trigger] run_function.accepts(r2) by {
                        assert(computation.runnable(r2));
                    }
                }
                assert forall|r: R, x: A| #[trigger] reader.model()(r, x) == local_model(crate::outcome::fn_rel(modifier), computation.model())(r, x) by {
                    if reader.model()(r, x) {
                        let r2 = choose|r2: R| modifier.ensures((r,), r2) && run_function.produces(r2, x);
                        assert(crate::outcome::fn_rel(modifier)(r, r2) && computation.model()(r2, x));
                    }
                    if local_model(crate::outcome::fn_rel(modifier), computation.model())(r, x) {
                        let r2 = choose|r2: R| #[trigger] crate::outcome::fn_rel(modifier)(r, r2) && computation.model()(r2, x);
                        let ghost lf = LocalFn { modifier, inner: run_function };
                        assert(lf.modifier.ensures((r,), r2) && lf.inner.produces(r2, x));
                        assert(EnvFn::<R, A>::produces(&lf, r, x));
                    }
                }
                assert(reader.model() =~= local_model(crate::outcome::fn_rel(modifier), computation.model()));
                reader
            },
        }
    }
}

} // verus!

verus! {

impl<R, A: Clone, F: Clone> Clone for Reader<R, A, F> {
    /// Clones the held value, or the function of the environment.
    fn clone(&self) -> (copy: Self)
        ensures
            match (*self, copy) {
                (Reader::Pure { value }, Reader::Pure { value: v }) => cloned(value, v),
                (Reader::Deferred { run_function: f, .. }, Reader::Deferred { run_function: g, .. }) => cloned(f, g),
                _ => false,
            },
    {
        match self {
            Reader::Pure { value } => Reader::Pure { value: value.clone() },
            Reader::Deferred { run_function, .. } => Reader::Deferred {
                run_function: run_function.clone(),
                environment: PhantomData,
            },
        }
    }
}

impl<R, A, F> Reader<R, A, F> {
    /// A short description of the reader: `<Reader::Pure>` or `<Reader::Deferred>`.
    pub fn to_string(&self) -> (text: String)
        ensures
            self is Pure ==> text@ == "<Reader::Pure>"@,
            self is Deferred ==> text@ == "<Reader::Deferred>"@,
    {
        match self {
            Reader::Pure { .. } => String::from_str("<Reader::Pure>"),
            Reader::Deferred { .. } => String::from_str("<Reader::Deferred>"),
        }
    }
}

/// Functor identity: mapping by a function that returns its argument adds
/// no result.
pub proof fn law_functor_identity<R, A>(m: ReaderModel<R, A>, id: spec_fn(A, A) -> bool)
    requires
        crate::outcome::is_identity(id),
    ensures
        model_within(map_model(m, id), m),
{
    assert forall|r: R, a: A| #[trigger] map_model(m, id)(r, a) implies m(r, a) by {
        let x = choose|x: A| #[trigger] m(r, x) && id(x, a);
    }
}

/// Functor composition: mapping by `f` and then by `g` is mapping by their
/// composition.
pub proof fn law_functor_composition<R, A, B, C>(
    m: ReaderModel<R, A>,
    f: spec_fn(A, B) -> bool,
    g: spec_fn(B, C) -> bool,
)
    ensures
        map_model(map_model(m, f), g) == map_model(m, crate::outcome::compose(f, g)),
{
    let lhs = map_model(map_model(m, f), g);
    let rhs = map_model(m, crate::outcome::compose(f, g));
    assert forall|r: R, c: C| #[trigger] lhs(r, c) == rhs(r, c) by {
        if lhs(r, c) {
            let b = choose|b: B| #[trigger] map_model(m, f)(r, b) && g(b, c);
            let a = choose|a: A| #[trigger] m(r, a) && f(a, b);
            assert(crate::outcome::compose(f, g)(a, c));
        }
        if rhs(r, c) {
            let a = choose|a: A| #[trigger] m(r, a) && crate::outcome::compose(f, g)(a, c);
            let b = choose|b: B| #[trigger] f(a, b) && g(b, c);
            assert(map_model(m, f)(r, b));
        }
    }
    assert(lhs =~= rhs);
}

/// Monad left identity: sequencing a reader that holds `value` with `k`
/// gives what `k` chooses for `value`, run on the environment.
pub proof fn law_monad_left_identity<R: Clone, A, B>(value: A, k: spec_fn(A, ReaderModel<R, B>) -> bool)
    ensures
        bind_model(pure_model::<R, A>(value), k) == (|r: R, b: B| exists|next: ReaderModel<R, B>| #[trigger] k(value, next) && next(r, b)),
{
    let lhs = bind_model(pure_model::<R, A>(value), k);
    let rhs = |r: R, b: B| exists|next: ReaderModel<R, B>| #[trigger] k(value, next) && next(r, b);
    assert forall|r: R, b: B| #[trigger] lhs(r, b) == rhs(r, b) by {
        if rhs(r, b) {
            let next = choose|next: ReaderModel<R, B>| #[trigger] k(value, next) && next(r, b);
            assert(cloned(r, r) && pure_model::<R, A>(value)(r, value) && k(value, next) && next(r, b));
        }
    }
    assert(lhs =~= rhs);
}

/// Monad right identity: sequencing with the continuation that holds its
/// argument changes nothing, for environments whose clones equal them.
pub proof fn law_monad_right_identity<R: Clone, A>(m: ReaderModel<R, A>)
    requires
        forall|r: R, r2: R| cloned(r, r2) ==> r == r2,
    ensures
        bind_model(m, |a: A, next: ReaderModel<R, A>| next == pure_model::<R, A>(a)) == m,
{
    let k = |a: A, next: ReaderModel<R, A>| next == pure_model::<R, A>(a);
    let lhs = bind_model(m, k);
    assert forall|r: R, a: A| #[trigger] lhs(r, a) == m(r, a) by {
        if m(r, a) {
            assert(cloned(r, r) && m(r, a) && k(a, pure_model::<R, A>(a)) && pure_model::<R, A>(a)(r, a));
        }
    }
    assert(lhs =~= m);
}

/// Monad associativity: sequencing with `f` and then with `g` is
/// sequencing with "`f`, then `g`", for environments whose clones equal them.
pub proof fn law_monad_associativity<R: Clone, A, B, C>(
    m: ReaderModel<R, A>,
    f: spec_fn(A, ReaderModel<R, B>) -> bool,
    g: spec_fn(B, ReaderModel<R, C>) -> bool,
)
    requires
        forall|r: R, r2: R| cloned(r, r2) ==> r == r2,
    ensures
        bind_model(bind_model(m, f), g) == bind_model(
            m,
            |a: A, next: ReaderModel<R, C>| exists|n: ReaderModel<R, B>| #[trigger] f(a, n) && next == bind_model(n, g),
        ),
{
    let k = |a: A, next: ReaderModel<R, C>| exists|n: ReaderModel<R, B>| #[trigger] f(a, n) && next == bind_model(n, g);
    let lhs = bind_model(bind_model(m, f), g);
    let rhs = bind_model(m, k);
    assert(forall|r: R| cloned(r, r));
    assert forall|r: R, c: C| #[trigger] lhs(r, c) == rhs(r, c) by {
        if lhs(r, c) {
            let (r2, b, n2) = choose|r2: R, b: B, n2: ReaderModel<R, C>|
                cloned(r, r2) && #[trigger] bind_model(m, f)(r2, b) && #[trigger] g(b, n2) && n2(r, c);
            let (r3, a, n1) = choose|r3: R, a: A, n1: ReaderModel<R, B>|
                cloned(r2, r3) && #[trigger] m(r3, a) && #[trigger] f(a, n1) && n1(r2, b);
            assert(bind_model(n1, g)(r, c));
            assert(k(a, bind_model(n1, g)));
        }
        if rhs(r, c) {
            let (r2, a, next) = choose|r2: R, a: A, next: ReaderModel<R, C>|
                cloned(r, r2) && #[trigger] m(r2, a) && #[trigger] k(a, next) && next(r, c);
            let n1 = choose|n: ReaderModel<R, B>| #[trigger] f(a, n) && next == bind_model(n, g);
            let (r4, b, n2) = choose|r4: R, b: B, n2: ReaderModel<R, C>|
                cloned(r, r4) && #[trigger] n1(r4, b) && #[trigger] g(b, n2) && n2(r, c);
            assert(bind_model(m, f)(r, b));
        }
    }
    assert(lhs =~= rhs);
}

/// Local identity: running on the environment changed by the identity is
/// running on the environment.
pub proof fn law_local_identity<R, A>(id: spec_fn(R, R) -> bool, m: ReaderModel<R, A>)
    requires
        forall|r: R, r2: R| #[trigger] id(r, r2) <==> r == r2,
    ensures
        local_model(id, m) == m,
{
    assert forall|r: R, a: A| #[trigger] local_model(id, m)(r, a) == m(r, a) by {
        if m(r, a) {
            assert(id(r, r));
        }
    }
    assert(local_model(id, m) =~= m);
}

/// Local composition: changing the environment by `f` and then, inside, by
/// `g` is changing it by `f` followed by `g`.
pub proof fn law_local_composition<R, A>(f: spec_fn(R, R) -> bool, g: spec_fn(R, R) -> bool, m: ReaderModel<R, A>)
    ensures
        local_model(f, local_model(g, m)) == local_model(crate::outcome::compose(f, g), m),
{
    let lhs = local_model(f, local_model(g, m));
    let rhs = local_model(crate::outcome::compose(f, g), m);
    assert forall|r: R, a: A| #[trigger] lhs(r, a) == rhs(r, a) by {
        if lhs(r, a) {
            let r2 = choose|r2: R| #[trigger] f(r, r2) && local_model(g, m)(r2, a);
            let r3 = choose|r3: R| #[trigger] g(r2, r3) && m(r3, a);
            assert(crate::outcome::compose(f, g)(r, r3));
        }
        if rhs(r, a) {
            let r3 = choose|r3: R| #[trigger] crate::outcome::compose(f, g)(r, r3) && m(r3, a);
            let r2 = choose|r2: R| #[trigger] f(r, r2) && g(r2, r3);
            assert(local_model(g, m)(r2, a));
        }
    }
    assert(lhs =~= rhs);
}

} // verus!
