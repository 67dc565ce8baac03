//! The Except monad transformer: computations that may fail with an error
//! of type `E`, inside another monad.
//!
//! An `ExceptT<E, M>` wraps a value of the inner monad `M` whose results are
//! `Result<A, E>`. Methods exist for three inner monads: `Option`, `Result`
//! and [`IO`]. A success is passed on to the next step; an error, or the
//! inner monad's own failure, stops the chain and is passed through.

use vstd::prelude::*;
use core::marker::PhantomData;
use crate::io::{Action, IO, Ready};

verus! {

/// A computation in the inner monad `M` that may fail with an error of type `E`.
pub struct ExceptT<E, M> {
    inner: M,
    _marker: PhantomData<E>,
}

impl<E, M> View for ExceptT<E, M> {
    type V = M;

    /// The wrapped value of the inner monad.
    closed spec fn view(&self) -> M {
        self.inner
    }
}

impl<E, M> ExceptT<E, M> {
    /// Wraps a value of the inner monad.
    pub fn new(inner: M) -> (except: Self)
        ensures
            except@ == inner,
    {
        ExceptT { inner, _marker: PhantomData }
    }

    /// Returns the wrapped value of the inner monad.
    pub fn run(self) -> (inner: M)
        ensures
            inner == self@,
    {
        self.inner
    }
}

impl<E, M: Clone> Clone for ExceptT<E, M> {
    /// Clones the wrapped value.
    fn clone(&self) -> (copy: Self)
        ensures
            cloned(self@, copy@),
    {
        ExceptT { inner: self.inner.clone(), _marker: PhantomData }
    }
}

/// `function` may turn the success of `before` into that of `after`, and
/// passes any other outcome through unchanged.
pub open spec fn maps_success<A, B, E, G: FnOnce(A) -> B>(before: Result<A, E>, function: G, after: Result<B, E>) -> bool {
    match before {
        Ok(a) => after matches Ok(b) && function.ensures((a,), b),
        Err(e) => after == Err::<B, E>(e),
    }
}

impl<E, A> ExceptT<E, Option<Result<A, E>>> {
    /// A success holding `value`.
    pub fn pure_option(value: A) -> (except: Self)
        ensures
            except@ == Some(Ok::<A, E>(value)),
    {
        ExceptT::new(Some(Ok(value)))
    }

    /// A failure with `error`.
    pub fn throw_option(error: E) -> (except: Self)
        ensures
            except@ == Some(Err::<A, E>(error)),
    {
        ExceptT::new(Some(Err(error)))
    }

    /// Lifts an optional value: a present value becomes a success, an
    /// absent one stays absent.
    pub fn lift_option(inner: Option<A>) -> (except: Self)
        ensures
            except@ == (match inner {
                Some(a) => Some(Ok::<A, E>(a)),
                None => None,
            }),
    {
        match inner {
            Some(a) => ExceptT::new(Some(Ok(a))),
            None => ExceptT::new(None),
        }
    }

    /// Applies `function` to a success; an error or an absent value is
    /// passed through.
    pub fn fmap_option<B, G: FnOnce(A) -> B>(self, function: G) -> (except: ExceptT<E, Option<Result<B, E>>>)
        requires
            self@ matches Some(Ok(a)) ==> function.requires((a,)),
        ensures
            match (self@, except@) {
                (Some(before), Some(after)) => maps_success(before, function, after),
                (None, None) => true,
                _ => false,
            },
    {
        match self.inner {
            Some(Ok(a)) => ExceptT::new(Some(Ok(function(a)))),
            Some(Err(e)) => ExceptT::new(Some(Err(e))),
            None => ExceptT::new(None),
        }
    }

    /// Passes a success to `function` and returns what it returns; an error
    /// or an absent value is passed through.
    pub fn flat_map_option<B, K: FnOnce(A) -> ExceptT<E, Option<Result<B, E>>>>(self, function: K) -> (except: ExceptT<E, Option<Result<B, E>>>)
        requires
            self@ matches Some(Ok(a)) ==> function.requires((a,)),
        ensures
            match self@ {
                Some(Ok(a)) => function.ensures((a,), except),
                Some(Err(e)) => except@ == Some(Err::<B, E>(e)),
                None => except@ == None::<Result<B, E>>,
            },
    {
        match self.inner {
            Some(Ok(a)) => function(a),
            Some(Err(e)) => ExceptT::new(Some(Err(e))),
            None => ExceptT::new(None),
        }
    }

    /// Passes an error to `handler` and returns what it returns; a success
    /// or an absent value is kept.
    pub fn catch_option<H: FnOnce(E) -> Self>(computation: Self, handler: H) -> (except: Self)
        requires
            computation@ matches Some(Err(e)) ==> handler.requires((e,)),
        ensures
            match computation@ {
                Some(Err(e)) => handler.ensures((e,), except),
                _ => except@ == computation@,
            },
    {
        match computation.inner {
            Some(Ok(a)) => ExceptT::new(Some(Ok(a))),
            Some(Err(e)) => handler(e),
            None => ExceptT::new(None),
        }
    }
}

impl<E, A, E2> ExceptT<E, Result<Result<A, E>, E2>> {
    /// A success holding `value`.
    pub fn pure_result(value: A) -> (except: Self)
        ensures
            except@ == Ok::<Result<A, E>, E2>(Ok(value)),
    {
        ExceptT::new(Ok(Ok(value)))
    }

    /// A failure with `error`.
    pub fn throw_result(error: E) -> (except: Self)
        ensures
            except@ == Ok::<Result<A, E>, E2>(Err(error)),
    {
        ExceptT::new(Ok(Err(error)))
    }

    /// Lifts a result of the outer monad: its value becomes a success, its
    /// error stays an outer error.
    pub fn lift_result(inner: Result<A, E2>) -> (except: Self)
        ensures
            except@ == (match inner {
                Ok(a) => Ok::<Result<A, E>, E2>(Ok(a)),
                Err(e2) => Err(e2),
            }),
    {
        match inner {
            Ok(a) => ExceptT::new(Ok(Ok(a))),
            Err(e2) => ExceptT::new(Err(e2)),
        }
    }

    /// Applies `function` to a success; either kind of error is passed through.
    pub fn fmap_result<B, G: FnOnce(A) -> B>(self, function: G) -> (except: ExceptT<E, Result<Result<B, E>, E2>>)
        requires
            self@ matches Ok(Ok(a)) ==> function.requires((a,)),
        ensures
            match (self@, except@) {
                (Ok(before), Ok(after)) => maps_success(before, function, after),
                (Err(e2), Err(f2)) => e2 == f2,
                _ => false,
            },
    {
        match self.inner {
            Ok(Ok(a)) => ExceptT::new(Ok(Ok(function(a)))),
            Ok(Err(e)) => ExceptT::new(Ok(Err(e))),
            Err(e2) => ExceptT::new(Err(e2)),
        }
    }

    /// Passes a success to `function` and returns what it returns; either
    /// kind of error is passed through.
    pub fn flat_map_result<B, K: FnOnce(A) -> ExceptT<E, Result<Result<B, E>, E2>>>(self, function: K) -> (except: ExceptT<E, Result<Result<B, E>, E2>>)
        requires
            self@ matches Ok(Ok(a)) ==> function.requires((a,)),
        ensures
            match self@ {
                Ok(Ok(a)) => function.ensures((a,), except),
                Ok(Err(e)) => except@ == Ok::<Result<B, E>, E2>(Err(e)),
                Err(e2) => except@ == Err::<Result<B, E>, E2>(e2),
            },
    {
        match self.inner {
            Ok(Ok(a)) => function(a),
            Ok(Err(e)) => ExceptT::new(Ok(Err(e))),
            Err(e2) => ExceptT::new(Err(e2)),
        }
    }

    /// Passes an error to `handler` and returns what it returns; a success
    /// or an outer error is kept.
    pub fn catch_result<H: FnOnce(E) -> Self>(computation: Self, handler: H) -> (except: Self)
        requires
            computation@ matches Ok(Err(e)) ==> handler.requires((e,)),
        ensures
            match computation@ {
                Ok(Err(e)) => handler.ensures((e,), except),
                _ => except@ == computation@,
            },
    {
        match computation.inner {
            Ok(Ok(a)) => ExceptT::new(Ok(Ok(a))),
            Ok(Err(e)) => handler(e),
            Err(e2) => ExceptT::new(Err(e2)),
        }
    }
}

} // verus!

verus! {

/// Runs an action and reports its value as a success.
pub struct Succeeded<A, E, F> {
    /// The action.
    pub inner: F,
    /// Marks the value and error types.
    pub types: PhantomData<(A, E)>,
}

impl<A, E, F: Action<A>> Action<Result<A, E>> for Succeeded<A, E, F> {
    open spec fn ready(&self) -> bool {
        self.inner.ready()
    }

    open spec fn may_give(&self, r: Result<A, E>) -> bool {
        r matches Ok(a) && self.inner.may_give(a)
    }

    fn perform(self) -> (r: Result<A, E>) {
        Ok(self.inner.perform())
    }
}

/// Runs an action that may fail and applies `function` to a success.
pub struct SuccessMapped<A, F, G> {
    /// The action.
    pub inner: F,
    /// The function applied to a success.
    pub function: G,
    /// Marks the type of the success.
    pub success: PhantomData<A>,
}

impl<A, B, E, F: Action<Result<A, E>>, G: FnOnce(A) -> B> Action<Result<B, E>> for SuccessMapped<A, F, G> {
    open spec fn ready(&self) -> bool {
        &&& self.inner.ready()
        &&& forall|a: A| #[trigger] self.inner.may_give(Ok(a)) ==> self.function.requires((a,))
    }

    open spec fn may_give(&self, r: Result<B, E>) -> bool {
        exists|before: Result<A, E>| #[trigger] self.inner.may_give(before) && maps_success(before, self.function, r)
    }

    fn perform(self) -> (r: Result<B, E>) {
        let before = self.inner.perform();
        let r = match before {
            Ok(a) => Ok((self.function)(a)),
            Err(e) => Err(e),
        };
        assert(self.inner.may_give(before) && maps_success(before, self.function, r));
        r
    }
}

/// Runs an action that may fail; a success goes to `function`, whose
/// computation is run in turn.
pub struct SuccessChained<A, F, K, G> {
    /// The action run first.
    pub first: F,
    /// The continuation for a success.
    pub function: K,
    /// Marks the type of the success and the action of the next computation.
    pub success: PhantomData<(A, G)>,
}

impl<A, B, E, F: Action<Result<A, E>>, G: Action<Result<B, E>>, K: FnOnce(A) -> ExceptT<E, IO<Result<B, E>, G>>>
    Action<Result<B, E>> for SuccessChained<A, F, K, G> {
    open spec fn ready(&self) -> bool {
        &&& self.first.ready()
        &&& forall|a: A| #[trigger] self.first.may_give(Ok(a)) ==> self.function.requires((a,))
        &&& forall|a: A, next: ExceptT<E, IO<Result<B, E>, G>>|
            #[trigger] self.first.may_give(Ok(a)) && #[trigger] self.function.ensures((a,), next) ==> next@.runnable()
    }

    open spec fn may_give(&self, r: Result<B, E>) -> bool {
        ||| exists|e: E| #[trigger] self.first.may_give(Err(e)) && r == Err::<B, E>(e)
        ||| exists|a: A, next: ExceptT<E, IO<Result<B, E>, G>>|
            #[trigger] self.first.may_give(Ok(a)) && #[trigger] self.function.ensures((a,), next) && next@.yields(r)
    }

    fn perform(self) -> (r: Result<B, E>) {
        let before = self.first.perform();
        match before {
            Ok(a) => {
                let next = (self.function)(a);
                let io = next.run();
                let r = io.run_unsafe();
                assert(self.first.may_give(Ok(a)) && self.function.ensures((a,), next) && next@.yields(r));
                r
            },
            Err(e) => {
                assert(self.first.may_give(Err(e)));
                Err(e)
            },
        }
    }
}

/// Runs an action that may fail; an error goes to `handler`, whose
/// computation is run in turn.
pub struct ErrorRecovered<F, H, G> {
    /// The action run first.
    pub first: F,
    /// The handler for an error.
    pub handler: H,
    /// Marks the action of the handler's computation.
    pub recovery: PhantomData<G>,
}

impl<A, E, F: Action<Result<A, E>>, G: Action<Result<A, E>>, H: FnOnce(E) -> ExceptT<E, IO<Result<A, E>, G>>>
    Action<Result<A, E>> for ErrorRecovered<F, H, G> {
    open spec fn ready(&self) -> bool {
        &&& self.first.ready()
        &&& forall|e: E| #[trigger] self.first.may_give(Err(e)) ==> self.handler.requires((e,))
        &&& forall|e: E, next: ExceptT<E, IO<Result<A, E>, G>>|
            #[trigger] self.first.may_give(Err(e)) && #[trigger] self.handler.ensures((e,), next) ==> next@.runnable()
    }

    open spec fn may_give(&self, r: Result<A, E>) -> bool {
        ||| exists|a: A| #[trigger] self.first.may_give(Ok(a)) && r == Ok::<A, E>(a)
        ||| exists|e: E, next: ExceptT<E, IO<Result<A, E>, G>>|
            #[trigger] self.first.may_give(Err(e)) && #[trigger] self.handler.ensures((e,), next) && next@.yields(r)
    }

    fn perform(self) -> (r: Result<A, E>) {
        let before = self.first.perform();
        match before {
            Ok(a) => {
                assert(self.first.may_give(Ok(a)));
                Ok(a)
            },
            Err(e) => {
                let next = (self.handler)(e);
                let io = next.run();
                let r = io.run_unsafe();
                assert(self.first.may_give(Err(e)) && self.handler.ensures((e,), next) && next@.yields(r));
                r
            },
        }
    }
}

impl<E, A> ExceptT<E, IO<Result<A, E>, Ready<Result<A, E>>>> {
    /// A computation that succeeds with `value`.
    pub fn pure_io(value: A) -> (except: Self)
        ensures
            except@.runnable(),
            forall|r: Result<A, E>| #[trigger] except@.yields(r) <==> r == Ok::<A, E>(value),
    {
        ExceptT::new(IO::pure(Ok(value)))
    }

    /// A computation that fails with `error`.
    pub fn throw_io(error: E) -> (except: Self)
        ensures
            except@.runnable(),
            forall|r: Result<A, E>| #[trigger] except@.yields(r) <==> r == Err::<A, E>(error),
    {
        ExceptT::new(IO::pure(Err(error)))
    }
}

impl<E, A, F: Action<A>> ExceptT<E, IO<Result<A, E>, Succeeded<A, E, F>>> {
    /// Lifts a computation: its value becomes a success.
    pub fn lift_io(inner: IO<A, F>) -> (except: Self)
        requires
            inner.runnable(),
        ensures
            except@.runnable(),
            forall|r: Result<A, E>| #[trigger] except@.yields(r) <==> (r matches Ok(a) && inner.yields(a)),
    {
        ExceptT::new(IO::from_action(Succeeded { inner: inner.into_action(), types: PhantomData }))
    }
}

impl<E, A, F: Action<Result<A, E>>> ExceptT<E, IO<Result<A, E>, F>> {
    /// Applies `function` to a success, once the computation has run; an
    /// error is passed through.
    pub fn fmap_io<B, G: FnOnce(A) -> B>(self, function: G) -> (except: ExceptT<E, IO<Result<B, E>, SuccessMapped<A, F, G>>>)
        requires
            self@.runnable(),
            forall|a: A| #[trigger] self@.yields(Ok(a)) ==> function.requires((a,)),
        ensures
            except@.runnable(),
            forall|r: Result<B, E>| #[trigger] except@.yields(r) <==>
                exists|before: Result<A, E>| #[trigger] self@.yields(before) && maps_success(before, function, r),
    {
        let io = self.inner;
        let action = io.into_action();
        let result = ExceptT::new(IO::from_action(SuccessMapped { inner: action, function, success: PhantomData }));
        assert forall|r: Result<B, E>| #[trigger] result@.yields(r) <==>
            exists|before: Result<A, E>| #[trigger] self@.yields(before) && maps_success(before, function, r) by {
            if result@.yields(r) {
                let before = choose|before: Result<A, E>| #[trigger] action.may_give(before) && maps_success(before, function, r);
                assert(self@.yields(before));
            }
            if exists|before: Result<A, E>| #[trigger] self@.yields(before) && maps_success(before, function, r) {
                let before = choose|before: Result<A, E>| #[trigger] self@.yields(before) && maps_success(before, function, r);
                assert(action.may_give(before));
                let ghost sm = SuccessMapped { inner: action, function, success: PhantomData::<A> };
                assert(result@.action() == sm);
                assert(sm.inner.may_give(before));
                assert(sm.may_give(r));
                assert(result@.action().may_give(r));
            }
        }
        result
    }

    /// Runs the computation; a success goes to `function`, whose computation
    /// is run in turn; an error is passed through.
    pub fn flat_map_io<B, G: Action<Result<B, E>>, K: FnOnce(A) -> ExceptT<E, IO<Result<B, E>, G>>>(self, function: K) -> (except: ExceptT<E, IO<Result<B, E>, SuccessChained<A, F, K, G>>>)
        requires
            self@.runnable(),
            forall|a: A| #[trigger] self@.yields(Ok(a)) ==> function.requires((a,)),
            forall|a: A, next: ExceptT<E, IO<Result<B, E>, G>>|
                #[trigger] self@.yields(Ok(a)) && #[trigger] function.ensures((a,), next) ==> next@.runnable(),
        ensures
            except@.runnable(),
            forall|r: Result<B, E>| #[trigger] except@.yields(r) <==> {
                ||| exists|e: E| #[trigger] self@.yields(Err(e)) && r == Err::<B, E>(e)
                ||| exists|a: A, next: ExceptT<E, IO<Result<B, E>, G>>|
                    #[trigger] self@.yields(Ok(a)) && #[trigger] function.ensures((a,), next) && next@.yields(r)
            },
    {
        let io = self.inner;
        let action = io.into_action();
        let result = ExceptT::new(IO::from_action(SuccessChained { first: action, function, success: PhantomData }));
        assert forall|a: A| #[trigger] action.may_give(Ok(a)) implies function.requires((a,)) by {
            assert(self@.yields(Ok(a)));
        }
        assert forall|a: A, next: ExceptT<E, IO<Result<B, E>, G>>|
            #[trigger] action.may_give(Ok(a)) && #[trigger] function.ensures((a,), next) implies next@.runnable() by {
            assert(self@.yields(Ok(a)));
        }
        assert forall|r: Result<B, E>| #[trigger] result@.yields(r) <==> {
            ||| exists|e: E| #[trigger] self@.yields(Err(e)) && r == Err::<B, E>(e)
            ||| exists|a: A, next: ExceptT<E, IO<Result<B, E>, G>>|
                #[trigger] self@.yields(Ok(a)) && #[trigger] function.ensures((a,), next) && next@.yields(r)
        } by {
            if exists|e: E| #[trigger] action.may_give(Err(e)) && r == Err::<B, E>(e) {
                let e = choose|e: E| #[trigger] action.may_give(Err(e)) && r == Err::<B, E>(e);
                assert(self@.yields(Err(e)));
            }
            if exists|e: E| #[trigger] self@.yields(Err(e)) && r == Err::<B, E>(e) {
                let e = choose|e: E| #[trigger] self@.yields(Err(e)) && r == Err::<B, E>(e);
                assert(action.may_give(Err(e)));
                let ghost st = SuccessChained { first: action, function, success: PhantomData::<(A, G)> };
                assert(result@.action() == st);
                assert(st.first.may_give(Err(e)) && r == Err::<B, E>(e));
                assert(exists|e2: E| #[trigger] st.first.may_give(Err(e2)) && r == Err::<B, E>(e2));
                assert(st.may_give(r));
                assert(result@.action().may_give(r));
            }
            if exists|a: A, next: ExceptT<E, IO<Result<B, E>, G>>|
                #[trigger] action.may_give(Ok(a)) && #[trigger] function.ensures((a,), next) && next@.yields(r) {
                let (a, next) = choose|a: A, next: ExceptT<E, IO<Result<B, E>, G>>|
                    #[trigger] action.may_give(Ok(a)) && #[trigger] function.ensures((a,), next) && next@.yields(r);
                assert(self@.yields(Ok(a)));
            }
            if exists|a: A, next: ExceptT<E, IO<Result<B, E>, G>>|
                #[trigger] self@.yields(Ok(a)) && #[trigger] function.ensures((a,), next) && next@.yields(r) {
                let (a, next) = choose|a: A, next: ExceptT<E, IO<Result<B, E>, G>>|
                    #[trigger] self@.yields(Ok(a)) && #[trigger] function.ensures((a,), next) && next@.yields(r);
                assert(action.may_give(Ok(a)));
                let ghost st = SuccessChained { first: action, function, success: PhantomData::<(A, G)> };
                assert(result@.action() == st);
                assert(st.first.may_give(Ok(a)) && st.function.ensures((a,), next) && next@.yields(r));
                assert(exists|a2: A, n2: ExceptT<E, IO<Result<B, E>, G>>|
                    #[trigger] st.first.may_give(Ok(a2)) && #[trigger] st.function.ensures((a2,), n2) && n2@.yields(r));
                assert(st.may_give(r));
                assert(result@.action().may_give(r));
            }
        }
        result
    }

    /// Runs the computation; an error goes to `handler`, whose computation is
    /// run in turn; a success is kept.
    pub fn catch_io<G: Action<Result<A, E>>, H: FnOnce(E) -> ExceptT<E, IO<Result<A, E>, G>>>(computation: Self, handler: H) -> (except: ExceptT<E, IO<Result<A, E>, ErrorRecovered<F, H, G>>>)
        requires
            computation@.runnable(),
            forall|e: E| #[trigger] computation@.yields(Err(e)) ==> handler.requires((e,)),
            forall|e: E, next: ExceptT<E, IO<Result<A, E>, G>>|
                #[trigger] computation@.yields(Err(e)) && #[trigger] handler.ensures((e,), next) ==> next@.runnable(),
        ensures
            except@.runnable(),
            forall|r: Result<A, E>| #[trigger] except@.yields(r) <==> {
                ||| exists|a: A| #[trigger] computation@.yields(Ok(a)) && r == Ok::<A, E>(a)
                ||| exists|e: E, next: ExceptT<E, IO<Result<A, E>, G>>|
                    #[trigger] computation@.yields(Err(e)) && #[trigger] handler.ensures((e,), next) && next@.yields(r)
            },
    {
        let io = computation.inner;
        let action = io.into_action();
        let result = ExceptT::new(IO::from_action(ErrorRecovered { first: action, handler, recovery: PhantomData::<G> }));
        assert forall|e: E| #[trigger] action.may_give(Err(e)) implies handler.requires((e,)) by {
            assert(computation@.yields(Err(e)));
        }
        assert forall|e: E, next: ExceptT<E, IO<Result<A, E>, G>>|
            #[trigger] action.may_give(Err(e)) && #[trigger] handler.ensures((e,), next) implies next@.runnable() by {
            assert(computation@.yields(Err(e)));
        }
        assert forall|r: Result<A, E>| #[trigger] result@.yields(r) <==> {
            ||| exists|a: A| #[trigger] computation@.yields(Ok(a)) && r == Ok::<A, E>(a)
            ||| exists|e: E, next: ExceptT<E, IO<Result<A, E>, G>>|
                #[trigger] computation@.yields(Err(e)) && #[trigger] handler.ensures((e,), next) && next@.yields(r)
        } by {
            if exists|a: A| #[trigger] action.may_give(Ok(a)) && r == Ok::<A, E>(a) {
                let a = choose|a: A| #[trigger] action.may_give(Ok(a)) && r == Ok::<A, E>(a);
                assert(computation@.yields(Ok(a)));
            }
            if exists|a: A| #[trigger] computation@.yields(Ok(a)) && r == Ok::<A, E>(a) {
                let a = choose|a: A| #[trigger] computation@.yields(Ok(a)) && r == Ok::<A, E>(a);
                assert(action.may_give(Ok(a)));
                let ghost st = ErrorRecovered { first: action, handler, recovery: PhantomData::<G> };
                assert(result@.action() == st);
                assert(st.first.may_give(Ok(a)) && r == Ok::<A, E>(a));
                assert(exists|a2: A| #[trigger] st.first.may_give(Ok(a2)) && r == Ok::<A, E>(a2));
                assert(st.may_give(r));
                assert(result@.action().may_give(r));
            }
            if exists|e: E, next: ExceptT<E, IO<Result<A, E>, G>>|
                #[trigger] action.may_give(Err(e)) && #[trigger] handler.ensures((e,), next) && next@.yields(r) {
                let (e, next) = choose|e: E, next: ExceptT<E, IO<Result<A, E>, G>>|
                    #[trigger] action.may_give(Err(e)) && #[trigger] handler.ensures((e,), next) && next@.yields(r);
                assert(computation@.yields(Err(e)));
            }
            if exists|e: E, next: ExceptT<E, IO<Result<A, E>, G>>|
                #[trigger] computation@.yields(Err(e)) && #[trigger] handler.ensures((e,), next) && next@.yields(r) {
                let (e, next) = choose|e: E, next: ExceptT<E, IO<Result<A, E>, G>>|
                    #[trigger] computation@.yields(Err(e)) && #[trigger] handler.ensures((e,), next) && next@.yields(r);
                assert(action.may_give(Err(e)));
                let ghost st = ErrorRecovered { first: action, handler, recovery: PhantomData::<G> };
                assert(result@.action() == st);
                assert(st.first.may_give(Err(e)) && st.handler.ensures((e,), next) && next@.yields(r));
                assert(exists|e2: E, n2: ExceptT<E, IO<Result<A, E>, G>>|
                    #[trigger] st.first.may_give(Err(e2)) && #[trigger] st.handler.ensures((e2,), n2) && n2@.yields(r));
                assert(st.may_give(r));
                assert(result@.action().may_give(r));
            }
        }
        result
    }
}

} // verus!
