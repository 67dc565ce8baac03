//! The Reader monad transformer: computations that read a shared
//! environment and produce a value of another monad.
//!
//! A `ReaderT<R, M, F>` holds a function `F` from an environment of type `R`
//! to a value of the inner monad `M`. Methods exist for three inner monads:
//! `Option`, `Result` and [`IO`]. The function runs each time the reader
//! runs; a chained reader runs its first part on a clone of the
//! environment and its second part on the environment itself.
//!
//! Constructors are called on `ReaderT<R, M>`, whose function type is the
//! placeholder [`Unbuilt`]; each returns a reader whose function type is
//! the closure it built.

use vstd::prelude::*;
use core::marker::PhantomData;
use std::rc::Rc;
use crate::except_transformer::maps_success;
use crate::io::{Action, IO, Ready};
use crate::shared::share;

verus! {

/// The function type of a `ReaderT` that has not been built yet; only the
/// constructors are called on it.
pub struct Unbuilt;

/// A computation that, given an environment of type `R`, produces a value
/// of the inner monad `M`.
pub struct ReaderT<R, M, F = Unbuilt> {
    run_function: F,
    _marker: PhantomData<(R, M)>,
}

/// `function` may turn the value of `before` into that of `after`; an
/// absent value stays absent.
pub open spec fn option_mapped<A, B, G: Fn(A) -> B>(before: Option<A>, function: G, after: Option<B>) -> bool {
    match before {
        Some(a) => after matches Some(b) && function.ensures((a,), b),
        None => after is None,
    }
}

impl<R, M, F> ReaderT<R, M, F> {
    /// The stored function of the environment.
    pub closed spec fn function(&self) -> F {
        self.run_function
    }
}

impl<R, M, F: Fn(R) -> M> ReaderT<R, M, F> {
    /// Running the reader on `r` is allowed.
    #[verifier::inline]
    pub open spec fn runnable(&self, r: R) -> bool {
        self.function().requires((r,))
    }

    /// `m` is a value that running the reader on `r` may produce.
    #[verifier::inline]
    pub open spec fn yields(&self, r: R, m: M) -> bool {
        self.function().ensures((r,), m)
    }

    /// The reader can be run on every environment.
    pub open spec fn total(&self) -> bool {
        forall|r: R| #[trigger] self.runnable(r)
    }

    /// Creates a reader from a function of the environment.
    pub fn new(function: F) -> (reader: Self)
        ensures
            reader.function() == function,
    {
        ReaderT { run_function: function, _marker: PhantomData }
    }

    /// Runs the reader with `environment`.
    pub fn run(&self, environment: R) -> (m: M)
        requires
            self.runnable(environment),
        ensures
            self.yields(environment, m),
    {
        (self.run_function)(environment)
    }

    /// Runs the reader on an environment changed by `modifier`.
    fn with_modified<N: Fn(R) -> R>(modifier: N, computation: Self) -> (reader: ReaderT<R, M, impl Fn(R) -> M>)
        requires
            forall|r: R| #[trigger] modifier.requires((r,)),
            computation.total(),
        ensures
            reader.total(),
            forall|r: R, m: M| #[trigger] reader.yields(r, m) ==>
                exists|r2: R| #[trigger] modifier.ensures((r,), r2) && computation.yields(r2, m),
    {
        let f = computation.run_function;
        let reader = ReaderT::new(move |r: R| -> (m: M)
            requires
                modifier.requires((r,)),
                forall|r2: R| #[trigger] f.requires((r2,)),
            ensures
                exists|r2: R| #[trigger] modifier.ensures((r,), r2) && f.ensures((r2,), m),
        {
            let r2 = modifier(r);
            f(r2)
        });
        assert forall|r: R| #[trigger] reader.runnable(r) by {
            assert(modifier.requires((r,)));
            assert forall|r2: R| #[trigger] f.requires((r2,)) by {
                assert(computation.runnable(r2));
            }
        }
        reader
    }
}

impl<R, M, F: Clone> Clone for ReaderT<R, M, F> {
    /// Clones the function of the environment.
    fn clone(&self) -> (copy: Self)
        ensures
            cloned(self.function(), copy.function()),
    {
        ReaderT { run_function: self.run_function.clone(), _marker: PhantomData }
    }
}

impl<R, A> ReaderT<R, Option<A>> {
    /// A reader that produces a clone of `value`, whatever the environment.
    pub fn pure_option(value: A) -> (reader: ReaderT<R, Option<A>, impl Fn(R) -> Option<A>>)
        where A: Clone,
        ensures
            reader.total(),
            forall|r: R, o: Option<A>| #[trigger] reader.yields(r, o) ==> (o matches Some(v) && cloned(value, v)),
    {
        ReaderT::new(move |r: R| -> (o: Option<A>)
            ensures
                o matches Some(v) && cloned(value, v),
        {
            Some(value.clone())
        })
    }

    /// A reader that produces a clone of `inner`, whatever the environment.
    pub fn lift_option(inner: Option<A>) -> (reader: ReaderT<R, Option<A>, impl Fn(R) -> Option<A>>)
        where A: Clone,
        ensures
            reader.total(),
            forall|r: R, o: Option<A>| #[trigger] reader.yields(r, o) ==> match inner {
                Some(v) => o matches Some(w) && cloned(v, w),
                None => o is None,
            },
    {
        ReaderT::new(move |r: R| -> (o: Option<A>)
            ensures
                match inner {
                    Some(v) => o matches Some(w) && cloned(v, w),
                    None => o is None,
                },
        {
            match &inner {
                Some(v) => Some(v.clone()),
                None => None,
            }
        })
    }

    /// A reader that produces the environment, converted to `A`.
    pub fn ask_option() -> (reader: ReaderT<R, Option<A>, impl Fn(R) -> Option<A>>)
        where A: From<R>,
        ensures
            reader.total(),
            forall|r: R, o: Option<A>| #[trigger] reader.yields(r, o) ==>
                (o matches Some(a) && call_ensures(A::from, (r,), a)),
    {
        ReaderT::new(|r: R| -> (o: Option<A>)
            ensures
                o matches Some(a) && call_ensures(A::from, (r,), a),
        {
            Some(A::from(r))
        })
    }
}

impl<R, A, F: Fn(R) -> Option<A>> ReaderT<R, Option<A>, F> {
    /// Applies `function` to a present value produced by this reader.
    pub fn fmap_option<B, G: Fn(A) -> B>(self, function: G) -> (reader: ReaderT<R, Option<B>, impl Fn(R) -> Option<B>>)
        requires
            self.total(),
            forall|a: A| #[trigger] function.requires((a,)),
        ensures
            reader.total(),
            forall|r: R, o: Option<B>| #[trigger] reader.yields(r, o) ==>
                exists|m: Option<A>| #[trigger] self.yields(r, m) && option_mapped(m, function, o),
    {
        let f = self.run_function;
        let reader = ReaderT::new(move |r: R| -> (o: Option<B>)
            requires
                f.requires((r,)),
                forall|a: A| #[trigger] function.requires((a,)),
            ensures
                exists|m: Option<A>| #[trigger] f.ensures((r,), m) && option_mapped(m, function, o),
        {
            let m = f(r);
            let o = match m {
                Some(a) => Some(function(a)),
                None => None,
            };
            assert(f.ensures((r,), m) && option_mapped(m, function, o));
            o
        });
        assert forall|r: R| #[trigger] reader.runnable(r) by {
            assert(self.runnable(r));
        }
        assert forall|r: R, o: Option<B>| #[trigger] reader.yields(r, o) implies
            exists|m: Option<A>| #[trigger] self.yields(r, m) && option_mapped(m, function, o) by {
            let m = choose|m: Option<A>| #[trigger] f.ensures((r,), m) && option_mapped(m, function, o);
            assert(self.yields(r, m));
        }
        reader
    }

    /// Passes a present value produced by this reader, run on a clone of the
    /// environment, to `function`, and runs the reader it returns on the
    /// environment; an absent value stays absent.
    pub fn flat_map_option<B, G: Fn(R) -> Option<B>, K: Fn(A) -> ReaderT<R, Option<B>, G>>(self, function: K) -> (reader: ReaderT<R, Option<B>, impl Fn(R) -> Option<B>>)
        where R: Clone,
        requires
            self.total(),
            forall|a: A| #[trigger] function.requires((a,)),
            forall|a: A, next: ReaderT<R, Option<B>, G>| #[trigger] function.ensures((a,), next) ==> next.total(),
        ensures
            reader.total(),
            forall|r: R, o: Option<B>| #[trigger] reader.yields(r, o) ==> exists|r2: R, m: Option<A>|
                cloned(r, r2) && #[trigger] self.yields(r2, m) && match m {
                    Some(a) => exists|next: ReaderT<R, Option<B>, G>| #[trigger] function.ensures((a,), next) && next.yields(r, o),
                    None => o is None,
                },
    {
        let f = self.run_function;
        let reader = ReaderT::new(move |r: R| -> (o: Option<B>)
            requires
                forall|r2: R| #[trigger] f.requires((r2,)),
                forall|a: A| #[trigger] function.requires((a,)),
                forall|a: A, next: ReaderT<R, Option<B>, G>| #[trigger] function.ensures((a,), next) ==> next.total(),
            ensures
                exists|r2: R, m: Option<A>| cloned(r, r2) && #[trigger] f.ensures((r2,), m) && match m {
                    Some(a) => exists|next: ReaderT<R, Option<B>, G>| #[trigger] function.ensures((a,), next) && next.yields(r, o),
                    None => o is None,
                },
        {
            let r2 = r.clone();
            let m = f(r2);
            match m {
                Some(a) => {
                    let next = function(a);
                    assert(next.runnable(r));
                    let o = next.run(r);
                    assert(function.ensures((a,), next) && next.yields(r, o));
                    assert(f.ensures((r2,), m));
                    o
                },
                None => {
                    assert(f.ensures((r2,), m));
                    None
                },
            }
        });
        assert forall|r: R| #[trigger] reader.runnable(r) by {
            assert forall|r2: R| #[trigger] f.requires((r2,)) by {
                assert(self.runnable(r2));
            }
        }
        assert forall|r: R, o: Option<B>| #[trigger] reader.yields(r, o) implies exists|r2: R, m: Option<A>|
            cloned(r, r2) && #[trigger] self.yields(r2, m) && match m {
                Some(a) => exists|next: ReaderT<R, Option<B>, G>| #[trigger] function.ensures((a,), next) && next.yields(r, o),
                None => o is None,
            } by {
            let (r2, m) = choose|r2: R, m: Option<A>| cloned(r, r2) && #[trigger] f.ensures((r2,), m) && match m {
                Some(a) => exists|next: ReaderT<R, Option<B>, G>| #[trigger] function.ensures((a,), next) && next.yields(r, o),
                None => o is None,
            };
            assert(self.yields(r2, m));
        }
        reader
    }

    /// Runs `computation` on the environment changed by `modifier`.
    pub fn local_option<N: Fn(R) -> R>(modifier: N, computation: Self) -> (reader: ReaderT<R, Option<A>, impl Fn(R) -> Option<A>>)
        requires
            forall|r: R| #[trigger] modifier.requires((r,)),
            computation.total(),
        ensures
            reader.total(),
            forall|r: R, o: Option<A>| #[trigger] reader.yields(r, o) ==>
                exists|r2: R| #[trigger] modifier.ensures((r,), r2) && computation.yields(r2, o),
    {
        Self::with_modified(modifier, computation)
    }
}

impl<R, A, E> ReaderT<R, Result<A, E>> {
    /// A reader that succeeds with a clone of `value`, whatever the environment.
    pub fn pure_result(value: A) -> (reader: ReaderT<R, Result<A, E>, impl Fn(R) -> Result<A, E>>)
        where A: Clone,
        ensures
            reader.total(),
            forall|r: R, o: Result<A, E>| #[trigger] reader.yields(r, o) ==> (o matches Ok(v) && cloned(value, v)),
    {
        ReaderT::new(move |r: R| -> (o: Result<A, E>)
            ensures
                o matches Ok(v) && cloned(value, v),
        {
            Ok(value.clone())
        })
    }

    /// A reader that produces a clone of `inner`, whatever the environment.
    pub fn lift_result(inner: Result<A, E>) -> (reader: ReaderT<R, Result<A, E>, impl Fn(R) -> Result<A, E>>)
        where A: Clone, E: Clone,
        ensures
            reader.total(),
            forall|r: R, o: Result<A, E>| #[trigger] reader.yields(r, o) ==> match inner {
                Ok(v) => o matches Ok(w) && cloned(v, w),
                Err(e) => o matches Err(x) && cloned(e, x),
            },
    {
        ReaderT::new(move |r: R| -> (o: Result<A, E>)
            ensures
                match inner {
                    Ok(v) => o matches Ok(w) && cloned(v, w),
                    Err(e) => o matches Err(x) && cloned(e, x),
                },
        {
            match &inner {
                Ok(v) => Ok(v.clone()),
                Err(e) => Err(e.clone()),
            }
        })
    }

    /// A reader that produces the environment, converted to `A`.
    pub fn ask_result() -> (reader: ReaderT<R, Result<A, E>, impl Fn(R) -> Result<A, E>>)
        where A: From<R>,
        ensures
            reader.total(),
            forall|r: R, o: Result<A, E>| #[trigger] reader.yields(r, o) ==>
                (o matches Ok(a) && call_ensures(A::from, (r,), a)),
    {
        ReaderT::new(|r: R| -> (o: Result<A, E>)
            ensures
                o matches Ok(a) && call_ensures(A::from, (r,), a),
        {
            Ok(A::from(r))
        })
    }
}

impl<R, A, E, F: Fn(R) -> Result<A, E>> ReaderT<R, Result<A, E>, F> {
    /// Applies `function` to a success produced by this reader; an error is
    /// passed through.
    pub fn fmap_result<B, G: Fn(A) -> B>(self, function: G) -> (reader: ReaderT<R, Result<B, E>, impl Fn(R) -> Result<B, E>>)
        requires
            self.total(),
            forall|a: A| #[trigger] function.requires((a,)),
        ensures
            reader.total(),
            forall|r: R, o: Result<B, E>| #[trigger] reader.yields(r, o) ==>
                exists|m: Result<A, E>| #[trigger] self.yields(r, m) && maps_success(m, function, o),
    {
        let f = self.run_function;
        let reader = ReaderT::new(move |r: R| -> (o: Result<B, E>)
            requires
                f.requires((r,)),
                forall|a: A| #[trigger] function.requires((a,)),
            ensures
                exists|m: Result<A, E>| #[trigger] f.ensures((r,), m) && maps_success(m, function, o),
        {
            let m = f(r);
            let o = match m {
                Ok(a) => Ok(function(a)),
                Err(e) => Err(e),
            };
            assert(f.ensures((r,), m) && maps_success(m, function, o));
            o
        });
        assert forall|r: R| #[trigger] reader.runnable(r) by {
            assert(self.runnable(r));
        }
        assert forall|r: R, o: Result<B, E>| #[trigger] reader.yields(r, o) implies
            exists|m: Result<A, E>| #[trigger] self.yields(r, m) && maps_success(m, function, o) by {
            let m = choose|m: Result<A, E>| #[trigger] f.ensures((r,), m) && maps_success(m, function, o);
            assert(self.yields(r, m));
        }
        reader
    }

    /// Passes a success produced by this reader, run on a clone of the
    /// environment, to `function`, and runs the reader it returns on the
    /// environment; an error is passed through.
    pub fn flat_map_result<B, G: Fn(R) -> Result<B, E>, K: Fn(A) -> ReaderT<R, Result<B, E>, G>>(self, function: K) -> (reader: ReaderT<R, Result<B, E>, impl Fn(R) -> Result<B, E>>)
        where R: Clone,
        requires
            self.total(),
            forall|a: A| #[trigger] function.requires((a,)),
            forall|a: A, next: ReaderT<R, Result<B, E>, G>| #[trigger] function.ensures((a,), next) ==> next.total(),
        ensures
            reader.total(),
            forall|r: R, o: Result<B, E>| #[trigger] reader.yields(r, o) ==> exists|r2: R, m: Result<A, E>|
                cloned(r, r2) && #[trigger] self.yields(r2, m) && match m {
                    Ok(a) => exists|next: ReaderT<R, Result<B, E>, G>| #[trigger] function.ensures((a,), next) && next.yields(r, o),
                    Err(e) => o == Err::<B, E>(e),
                },
    {
        let f = self.run_function;
        let reader = ReaderT::new(move |r: R| -> (o: Result<B, E>)
            requires
                forall|r2: R| #[trigger] f.requires((r2,)),
                forall|a: A| #[trigger] function.requires((a,)),
                forall|a: A, next: ReaderT<R, Result<B, E>, G>| #[trigger] function.ensures((a,), next) ==> next.total(),
            ensures
                exists|r2: R, m: Result<A, E>| cloned(r, r2) && #[trigger] f.ensures((r2,), m) && match m {
                    Ok(a) => exists|next: ReaderT<R, Result<B, E>, G>| #[trigger] function.ensures((a,), next) && next.yields(r, o),
                    Err(e) => o == Err::<B, E>(e),
                },
        {
            let r2 = r.clone();
            let m = f(r2);
            match m {
                Ok(a) => {
                    let next = function(a);
                    assert(next.runnable(r));
                    let o = next.run(r);
                    assert(function.ensures((a,), next) && next.yields(r, o));
                    assert(f.ensures((r2,), m));
                    o
                },
                Err(e) => {
                    assert(f.ensures((r2,), m));
                    Err(e)
                },
            }
        });
        assert forall|r: R| #[trigger] reader.runnable(r) by {
            assert forall|r2: R| #[trigger] f.requires((r2,)) by {
                assert(self.runnable(r2));
            }
        }
        assert forall|r: R, o: Result<B, E>| #[trigger] reader.yields(r, o) implies exists|r2: R, m: Result<A, E>|
            cloned(r, r2) && #[trigger] self.yields(r2, m) && match m {
                Ok(a) => exists|next: ReaderT<R, Result<B, E>, G>| #[trigger] function.ensures((a,), next) && next.yields(r, o),
                Err(e) => o == Err::<B, E>(e),
            } by {
            let (r2, m) = choose|r2: R, m: Result<A, E>| cloned(r, r2) && #[trigger] f.ensures((r2,), m) && match m {
                Ok(a) => exists|next: ReaderT<R, Result<B, E>, G>| #[trigger] function.ensures((a,), next) && next.yields(r, o),
                Err(e) => o == Err::<B, E>(e),
            };
            assert(self.yields(r2, m));
        }
        reader
    }

    /// Runs `computation` on the environment changed by `modifier`.
    pub fn local_result<N: Fn(R) -> R>(modifier: N, computation: Self) -> (reader: ReaderT<R, Result<A, E>, impl Fn(R) -> Result<A, E>>)
        requires
            forall|r: R| #[trigger] modifier.requires((r,)),
            computation.total(),
        ensures
            reader.total(),
            forall|r: R, o: Result<A, E>| #[trigger] reader.yields(r, o) ==>
                exists|r2: R| #[trigger] modifier.ensures((r,), r2) && computation.yields(r2, o),
    {
        Self::with_modified(modifier, computation)
    }
}

/// Runs an action, then applies a shared function to its result.
pub struct SharedMapped<A, G, H> {
    /// The action run first.
    pub inner: G,
    /// The function applied to its result.
    pub function: Rc<H>,
    /// Marks the intermediate type.
    pub intermediate: PhantomData<A>,
}

impl<A, B, G: Action<A>, H: Fn(A) -> B> Action<B> for SharedMapped<A, G, H> {
    open spec fn ready(&self) -> bool {
        &&& self.inner.ready()
        &&& forall|a: A| #[trigger] self.inner.may_give(a) ==> (*self.function).requires((a,))
    }

    open spec fn may_give(&self, b: B) -> bool {
        exists|a: A| #[trigger] self.inner.may_give(a) && (*self.function).ensures((a,), b)
    }

    fn perform(self) -> (b: B) {
        let a = self.inner.perform();
        let function: &H = &*self.function;
        function(a)
    }
}

/// Runs an action, passes its result to a shared continuation that returns
/// a reader, runs that reader on `environment`, and runs the computation
/// it produces.
pub struct SharedChained<R, A, G, K, F2, G2> {
    /// The action run first.
    pub first: G,
    /// The continuation.
    pub function: Rc<K>,
    /// The environment for the reader that the continuation returns.
    pub environment: R,
    /// Marks the intermediate type and the types of the next reader.
    pub types: PhantomData<(A, F2, G2)>,
}

impl<R, A, B, G: Action<A>, G2: Action<B>, F2: Fn(R) -> IO<B, G2>, K: Fn(A) -> ReaderT<R, IO<B, G2>, F2>>
    Action<B> for SharedChained<R, A, G, K, F2, G2> {
    open spec fn ready(&self) -> bool {
        &&& self.first.ready()
        &&& forall|a: A| #[trigger] self.first.may_give(a) ==> (*self.function).requires((a,))
        &&& forall|a: A, next: ReaderT<R, IO<B, G2>, F2>|
            #[trigger] self.first.may_give(a) && #[trigger] (*self.function).ensures((a,), next) ==> always_runnable(next)
    }

    open spec fn may_give(&self, b: B) -> bool {
        exists|a: A, next: ReaderT<R, IO<B, G2>, F2>, io: IO<B, G2>|
            #[trigger] self.first.may_give(a) && #[trigger] (*self.function).ensures((a,), next)
                && #[trigger] next.yields(self.environment, io) && io.yields(b)
    }

    fn perform(self) -> (b: B) {
        let a = self.first.perform();
        let function: &K = &*self.function;
        let next = function(a);
        assert(next.runnable(self.environment));
        let io = next.run(self.environment);
        let b = io.run_unsafe();
        assert(self.first.may_give(a) && (*self.function).ensures((a,), next) && next.yields(self.environment, io) && io.yields(b));
        b
    }
}

/// The reader can be run on every environment, and every computation it
/// produces can be run.
pub open spec fn always_runnable<R, A, G: Action<A>, F: Fn(R) -> IO<A, G>>(reader: ReaderT<R, IO<A, G>, F>) -> bool {
    &&& reader.total()
    &&& forall|r: R, io: IO<A, G>| #[trigger] reader.yields(r, io) ==> io.runnable()
}

impl<R, A> ReaderT<R, IO<A, Ready<A>>> {
    /// A reader whose computation produces a clone of `value`, whatever the
    /// environment.
    pub fn pure_io(value: A) -> (reader: ReaderT<R, IO<A, Ready<A>>, impl Fn(R) -> IO<A, Ready<A>>>)
        where A: Clone,
        ensures
            always_runnable(reader),
            forall|r: R, io: IO<A, Ready<A>>| #[trigger] reader.yields(r, io) ==>
                forall|a: A| #[trigger] io.yields(a) ==> cloned(value, a),
    {
        ReaderT::new(move |r: R| -> (io: IO<A, Ready<A>>)
            ensures
                io.runnable(),
                forall|a: A| #[trigger] io.yields(a) ==> cloned(value, a),
        {
            IO::pure(value.clone())
        })
    }

    /// A reader whose computation produces the environment, converted to `A`.
    pub fn ask_io() -> (reader: ReaderT<R, IO<A, Ready<A>>, impl Fn(R) -> IO<A, Ready<A>>>)
        where A: From<R>,
        ensures
            always_runnable(reader),
            forall|r: R, io: IO<A, Ready<A>>| #[trigger] reader.yields(r, io) ==>
                forall|a: A| #[trigger] io.yields(a) ==> call_ensures(A::from, (r,), a),
    {
        ReaderT::new(|r: R| -> (io: IO<A, Ready<A>>)
            ensures
                io.runnable(),
                forall|a: A| #[trigger] io.yields(a) ==> call_ensures(A::from, (r,), a),
        {
            IO::pure(A::from(r))
        })
    }
}

impl<R, A, G: Action<A>, F: Fn(R) -> IO<A, G>> ReaderT<R, IO<A, G>, F> {
    /// Applies `function` to the result of the computation that this reader
    /// produces, once that computation runs.
    pub fn fmap_io<B, H: Fn(A) -> B>(self, function: H) -> (reader: ReaderT<R, IO<B, SharedMapped<A, G, H>>, impl Fn(R) -> IO<B, SharedMapped<A, G, H>>>)
        requires
            always_runnable(self),
            forall|a: A| #[trigger] function.requires((a,)),
        ensures
            always_runnable(reader),
            forall|r: R, io: IO<B, SharedMapped<A, G, H>>| #[trigger] reader.yields(r, io) ==> exists|before: IO<A, G>|
                #[trigger] self.yields(r, before) && forall|b: B| #[trigger] io.yields(b) <==>
                    exists|a: A| #[trigger] before.yields(a) && function.ensures((a,), b),
    {
        let f = self.run_function;
        let shared = Rc::new(function);
        let reader = ReaderT::new(move |r: R| -> (io: IO<B, SharedMapped<A, G, H>>)
            requires
                f.requires((r,)),
                forall|io: IO<A, G>| #[trigger] f.ensures((r,), io) ==> io.runnable(),
                forall|a: A| #[trigger] (*shared).requires((a,)),
            ensures
                io.runnable(),
                exists|before: IO<A, G>| #[trigger] f.ensures((r,), before) && forall|b: B| #[trigger] io.yields(b) <==>
                    exists|a: A| #[trigger] before.yields(a) && (*shared).ensures((a,), b),
        {
            let before = f(r);
            let action = before.into_action();
            let io = IO::from_action(SharedMapped { inner: action, function: share(&shared), intermediate: PhantomData });
            assert forall|b: B| #[trigger] io.yields(b) <==>
                exists|a: A| #[trigger] before.yields(a) && (*shared).ensures((a,), b) by {
                if exists|a: A| #[trigger] before.yields(a) && (*shared).ensures((a,), b) {
                    let a = choose|a: A| #[trigger] before.yields(a) && (*shared).ensures((a,), b);
                    let ghost sm = SharedMapped { inner: action, function: shared, intermediate: PhantomData::<A> };
                    assert(io.action() == sm);
                    assert(sm.inner.may_give(a) && (*sm.function).ensures((a,), b));
                    assert(sm.may_give(b));
                }
            }
            io
        });
        assert forall|r: R| #[trigger] reader.runnable(r) by {
            assert(self.runnable(r));
            assert forall|io: IO<A, G>| #[trigger] f.ensures((r,), io) implies io.runnable() by {
                assert(self.yields(r, io));
            }
        }
        assert forall|r: R, io: IO<B, SharedMapped<A, G, H>>| #[trigger] reader.yields(r, io) implies (io.runnable() && exists|before: IO<A, G>|
            #[trigger] self.yields(r, before) && forall|b: B| #[trigger] io.yields(b) <==>
                exists|a: A| #[trigger] before.yields(a) && function.ensures((a,), b)) by {
            let before = choose|before: IO<A, G>| #[trigger] f.ensures((r,), before) && forall|b: B| #[trigger] io.yields(b) <==>
                exists|a: A| #[trigger] before.yields(a) && (*shared).ensures((a,), b);
            assert(self.yields(r, before));
        }
        reader
    }

    /// Runs this reader on the environment, runs its computation, passes the
    /// result to `function`, and runs the reader it returns on a clone of the
    /// environment, then the computation that reader produces.
    pub fn flat_map_io<B, G2: Action<B>, F2: Fn(R) -> IO<B, G2>, K: Fn(A) -> ReaderT<R, IO<B, G2>, F2>>(self, function: K) -> (reader: ReaderT<R, IO<B, SharedChained<R, A, G, K, F2, G2>>, impl Fn(R) -> IO<B, SharedChained<R, A, G, K, F2, G2>>>)
        where R: Clone,
        requires
            always_runnable(self),
            forall|a: A| #[trigger] function.requires((a,)),
            forall|a: A, next: ReaderT<R, IO<B, G2>, F2>| #[trigger] function.ensures((a,), next) ==> always_runnable(next),
        ensures
            always_runnable(reader),
            forall|r: R, io: IO<B, SharedChained<R, A, G, K, F2, G2>>| #[trigger] reader.yields(r, io) ==> exists|r2: R, before: IO<A, G>|
                #[trigger] cloned(r, r2) && #[trigger] self.yields(r, before) && forall|b: B| #[trigger] io.yields(b) <==>
                    exists|a: A, next: ReaderT<R, IO<B, G2>, F2>, after: IO<B, G2>|
                        #[trigger] before.yields(a) && #[trigger] function.ensures((a,), next)
                            && #[trigger] next.yields(r2, after) && after.yields(b),
    {
        let f = self.run_function;
        let shared = Rc::new(function);
        let reader = ReaderT::new(move |r: R| -> (io: IO<B, SharedChained<R, A, G, K, F2, G2>>)
            requires
                f.requires((r,)),
                forall|io: IO<A, G>| #[trigger] f.ensures((r,), io) ==> io.runnable(),
                forall|a: A| #[trigger] (*shared).requires((a,)),
                forall|a: A, next: ReaderT<R, IO<B, G2>, F2>| #[trigger] (*shared).ensures((a,), next) ==> always_runnable(next),
            ensures
                io.runnable(),
                exists|r2: R, before: IO<A, G>| #[trigger] cloned(r, r2) && #[trigger] f.ensures((r,), before) && forall|b: B| #[trigger] io.yields(b) <==>
                    exists|a: A, next: ReaderT<R, IO<B, G2>, F2>, after: IO<B, G2>|
                        #[trigger] before.yields(a) && #[trigger] (*shared).ensures((a,), next)
                            && #[trigger] next.yields(r2, after) && after.yields(b),
        {
            let r2 = r.clone();
            let before = f(r);
            let action = before.into_action();
            let io = IO::from_action(SharedChained { first: action, function: share(&shared), environment: r2, types: PhantomData });
            assert forall|b: B| #[trigger] io.yields(b) <==>
                exists|a: A, next: ReaderT<R, IO<B, G2>, F2>, after: IO<B, G2>|
                    #[trigger] before.yields(a) && #[trigger] (*shared).ensures((a,), next)
                        && #[trigger] next.yields(r2, after) && after.yields(b) by {
                let ghost sc = SharedChained { first: action, function: shared, environment: r2, types: PhantomData::<(A, F2, G2)> };
                assert(io.action() == sc);
                if exists|a: A, next: ReaderT<R, IO<B, G2>, F2>, after: IO<B, G2>|
                    #[trigger] before.yields(a) && #[trigger] (*shared).ensures((a,), next)
                        && #[trigger] next.yields(r2, after) && after.yields(b) {
                    let (a, next, after) = choose|a: A, next: ReaderT<R, IO<B, G2>, F2>, after: IO<B, G2>|
                        #[trigger] before.yields(a) && #[trigger] (*shared).ensures((a,), next)
                            && #[trigger] next.yields(r2, after) && after.yields(b);
                    assert(sc.first.may_give(a) && (*sc.function).ensures((a,), next) && next.yields(sc.environment, after) && after.yields(b));
                    assert(sc.may_give(b));
                }
            }
            assert forall|a: A, next: ReaderT<R, IO<B, G2>, F2>|
                #[trigger] action.may_give(a) && #[trigger] (*shared).ensures((a,), next) implies always_runnable(next) by {}
            assert(cloned(r, r2) && f.ensures((r,), before));
            io
        });
        assert forall|r: R| #[trigger] reader.runnable(r) by {
            assert(self.runnable(r));
            assert forall|io: IO<A, G>| #[trigger] f.ensures((r,), io) implies io.runnable() by {
                assert(self.yields(r, io));
            }
        }
        assert forall|r: R, io: IO<B, SharedChained<R, A, G, K, F2, G2>>| #[trigger] reader.yields(r, io) implies (io.runnable() && exists|r2: R, before: IO<A, G>|
            #[trigger] cloned(r, r2) && #[trigger] self.yields(r, before) && forall|b: B| #[trigger] io.yields(b) <==>
                exists|a: A, next: ReaderT<R, IO<B, G2>, F2>, after: IO<B, G2>|
                    #[trigger] before.yields(a) && #[trigger] function.ensures((a,), next)
                        && #[trigger] next.yields(r2, after) && after.yields(b)) by {
            let (r2, before) = choose|r2: R, before: IO<A, G>| #[trigger] cloned(r, r2) && #[trigger] f.ensures((r,), before) && forall|b: B| #[trigger] io.yields(b) <==>
                exists|a: A, next: ReaderT<R, IO<B, G2>, F2>, after: IO<B, G2>|
                    #[trigger] before.yields(a) && #[trigger] (*shared).ensures((a,), next)
                        && #[trigger] next.yields(r2, after) && after.yields(b);
            assert(self.yields(r, before));
        }
        reader
    }

    /// Runs `computation` on the environment changed by `modifier`.
    pub fn local_io<N: Fn(R) -> R>(modifier: N, computation: Self) -> (reader: ReaderT<R, IO<A, G>, impl Fn(R) -> IO<A, G>>)
        requires
            forall|r: R| #[trigger] modifier.requires((r,)),
            always_runnable(computation),
        ensures
            always_runnable(reader),
            forall|r: R, io: IO<A, G>| #[trigger] reader.yields(r, io) ==>
                exists|r2: R| #[trigger] modifier.ensures((r,), r2) && computation.yields(r2, io),
    {
        let reader = Self::with_modified(modifier, computation);
        assert forall|r: R, io: IO<A, G>| #[trigger] reader.yields(r, io) implies io.runnable() by {
            let r2 = choose|r2: R| #[trigger] modifier.ensures((r,), r2) && computation.yields(r2, io);
        }
        reader
    }
}

} // verus!
