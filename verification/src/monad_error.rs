//! Error handling for computations that may fail: raising an error,
//! recovering from one, and transforming either outcome.
//!
//! [`MonadError`] is implemented for `Result<T, E>`; its methods take and
//! return `Result` values, and each contract states the result for the
//! success and for the error case.

use vstd::prelude::*;

verus! {

/// Transforming the error of a computation.
pub trait MonadErrorExt<E>: Sized {
    /// The type of a success.
    type Value;

    /// The computation failed with `e`.
    spec fn failed_with(&self, e: E) -> bool;

    /// The computation succeeded with `v`.
    spec fn succeeded_with(&self, v: Self::Value) -> bool;

    /// Applies `transform` to an error; a success is kept.
    fn map_error<E2, F: FnOnce(E) -> E2>(self, transform: F) -> (result: Result<Self::Value, E2>)
        requires
            forall|e: E| #[trigger] self.failed_with(e) ==> transform.requires((e,)),
        ensures
            forall|v: Self::Value| #[trigger] self.succeeded_with(v) ==> result == Ok::<Self::Value, E2>(v),
            forall|e: E| #[trigger] self.failed_with(e) ==> (result matches Err(e2) && transform.ensures((e,), e2)),
    ;
}

impl<A, E> MonadErrorExt<E> for Result<A, E> {
    type Value = A;

    open spec fn failed_with(&self, e: E) -> bool {
        *self == Err::<A, E>(e)
    }

    open spec fn succeeded_with(&self, v: A) -> bool {
        *self == Ok::<A, E>(v)
    }

    fn map_error<E2, F: FnOnce(E) -> E2>(self, transform: F) -> (result: Result<A, E2>) {
        match self {
            Ok(v) => Ok(v),
            Err(e) => {
                assert(self.failed_with(e));
                Err(transform(e))
            },
        }
    }
}

/// `result` is what catching with `handler` may give for `computation`: the
/// success kept, or what the handler returns for the error.
pub open spec fn catch_outcome<A, E, F: FnOnce(E) -> Result<A, E>>(computation: Result<A, E>, handler: F, result: Result<A, E>) -> bool {
    match computation {
        Ok(v) => result == Ok::<A, E>(v),
        Err(e) => handler.ensures((e,), result),
    }
}

/// `result` is what transforming the error of `computation` by `transform`
/// may give: the success kept, or the transformed error.
pub open spec fn map_error_outcome<A, E, E2, F: FnOnce(E) -> E2>(computation: Result<A, E>, transform: F, result: Result<A, E2>) -> bool {
    match computation {
        Ok(v) => result == Ok::<A, E2>(v),
        Err(e) => result matches Err(e2) && transform.ensures((e,), e2),
    }
}

/// `result` is what handling the error of `computation` by `handler` may
/// give: the success kept, or a success with what the handler returns.
pub open spec fn handle_outcome<A, E, F: FnOnce(E) -> A>(computation: Result<A, E>, handler: F, result: Result<A, E>) -> bool {
    match computation {
        Ok(v) => result == Ok::<A, E>(v),
        Err(e) => result matches Ok(v) && handler.ensures((e,), v),
    }
}

/// `result` is what recovering `computation` by `partial_handler` may give:
/// the success kept, a success with the handler's value, or the error kept
/// where the handler has none.
pub open spec fn recover_outcome<A, E, F: FnOnce(&E) -> Option<A>>(computation: Result<A, E>, partial_handler: F, result: Result<A, E>) -> bool {
    match computation {
        Ok(v) => result == Ok::<A, E>(v),
        Err(e) => exists|answer: Option<A>| #[trigger] partial_handler.ensures((&e,), answer) && result == (match answer {
            Some(v) => Ok::<A, E>(v),
            None => Err(e),
        }),
    }
}

/// `result` is what recovering `computation` by a handler of computations
/// may give: the success kept, the handler's computation, or the error
/// kept where the handler has none.
pub open spec fn recover_partial_outcome<A, E, F: FnOnce(&E) -> Option<Result<A, E>>>(computation: Result<A, E>, partial_handler: F, result: Result<A, E>) -> bool {
    match computation {
        Ok(v) => result == Ok::<A, E>(v),
        Err(e) => exists|answer: Option<Result<A, E>>| #[trigger] partial_handler.ensures((&e,), answer) && result == (match answer {
            Some(r) => r,
            None => Err(e),
        }),
    }
}

/// `result` is what checking the success of `computation` by `predicate`
/// may give: the success where it holds, else the error that `error`
/// makes; an error is kept.
pub open spec fn ensure_outcome<A, E, F: FnOnce() -> E, P: FnOnce(&A) -> bool>(computation: Result<A, E>, error: F, predicate: P, result: Result<A, E>) -> bool {
    match computation {
        Ok(v) => exists|holds: bool| #[trigger] predicate.ensures((&v,), holds) && if holds {
            result == Ok::<A, E>(v)
        } else {
            result matches Err(e) && error.ensures((), e)
        },
        Err(e) => result == Err::<A, E>(e),
    }
}

/// `result` is what checking the success of `computation` by `predicate`
/// may give: the success where it holds, else the error that `error_fn`
/// makes from it; an error is kept.
pub open spec fn ensure_or_outcome<A, E, F: FnOnce(&A) -> E, P: FnOnce(&A) -> bool>(computation: Result<A, E>, error_fn: F, predicate: P, result: Result<A, E>) -> bool {
    match computation {
        Ok(v) => exists|holds: bool| #[trigger] predicate.ensures((&v,), holds) && if holds {
            result == Ok::<A, E>(v)
        } else {
            result matches Err(e) && error_fn.ensures((&v,), e)
        },
        Err(e) => result == Err::<A, E>(e),
    }
}

/// `result` is what redeeming `computation` may give: a success with what
/// `transform` makes of a success or `recover` of an error.
pub open spec fn redeem_outcome<A, B, E, Rv: FnOnce(E) -> B, T: FnOnce(A) -> B>(computation: Result<A, E>, recover: Rv, transform: T, result: Result<B, E>) -> bool {
    match computation {
        Ok(v) => result matches Ok(b) && transform.ensures((v,), b),
        Err(e) => result matches Ok(b) && recover.ensures((e,), b),
    }
}

/// `result` is what redeeming `computation` with computations may give:
/// what `bind` returns for a success or `recover` for an error.
pub open spec fn redeem_with_outcome<A, B, E, Rv: FnOnce(E) -> Result<B, E>, Bn: FnOnce(A) -> Result<B, E>>(computation: Result<A, E>, recover: Rv, bind: Bn, result: Result<B, E>) -> bool {
    match computation {
        Ok(v) => bind.ensures((v,), result),
        Err(e) => recover.ensures((e,), result),
    }
}

/// Raising and handling errors of type `E`.
pub trait MonadError<E> {
    /// A computation that fails with `error`.
    fn throw_error<A>(error: E) -> (result: Result<A, E>)
        ensures
            result == Err::<A, E>(error),
    ;

    /// Passes an error to `handler` and returns what it returns; a success
    /// is kept.
    fn catch_error<A, F: FnOnce(E) -> Result<A, E>>(computation: Result<A, E>, handler: F) -> (result: Result<A, E>)
        requires
            computation matches Err(e) ==> handler.requires((e,)),
        ensures
            catch_outcome(computation, handler, result),
    ;

    /// The computation whose outcome is `result`.
    fn from_result<A>(result: Result<A, E>) -> (computation: Result<A, E>)
        ensures
            computation == result,
    ;

    /// Replaces an error by `default`; a success is kept.
    fn recover_with<A>(computation: Result<A, E>, default: Result<A, E>) -> (result: Result<A, E>)
        ensures
            result == (match computation {
                Ok(v) => Ok(v),
                Err(_) => default,
            }),
    ;

    /// Applies `transform` to an error; a success is kept.
    fn adapt_error<A, F: FnOnce(E) -> E>(computation: Result<A, E>, transform: F) -> (result: Result<A, E>)
        requires
            computation matches Err(e) ==> transform.requires((e,)),
        ensures
            map_error_outcome(computation, transform, result),
    ;

    /// Turns an error into a success by `handler`; a success is kept.
    fn handle_error<A, F: FnOnce(E) -> A>(computation: Result<A, E>, handler: F) -> (result: Result<A, E>)
        requires
            computation matches Err(e) ==> handler.requires((e,)),
        ensures
            handle_outcome(computation, handler, result),
    ;

    /// Asks `partial_handler` for a value to replace an error; where it has
    /// none, the error is kept. A success is kept.
    fn recover<A, F: FnOnce(&E) -> Option<A>>(computation: Result<A, E>, partial_handler: F) -> (result: Result<A, E>)
        requires
            computation matches Err(e) ==> partial_handler.requires((&e,)),
        ensures
            recover_outcome(computation, partial_handler, result),
    ;

    /// Asks `partial_handler` for a computation to replace an error; where
    /// it has none, the error is kept. A success is kept.
    fn recover_with_partial<A, F: FnOnce(&E) -> Option<Result<A, E>>>(computation: Result<A, E>, partial_handler: F) -> (result: Result<A, E>)
        requires
            computation matches Err(e) ==> partial_handler.requires((&e,)),
        ensures
            recover_partial_outcome(computation, partial_handler, result),
    ;

    /// Keeps a success that satisfies `predicate` and replaces one that does
    /// not by the error that `error` makes; an error is kept.
    fn ensure<A, F: FnOnce() -> E, P: FnOnce(&A) -> bool>(computation: Result<A, E>, error: F, predicate: P) -> (result: Result<A, E>)
        requires
            computation matches Ok(v) ==> predicate.requires((&v,)),
            computation matches Ok(v) ==> error.requires(()),
        ensures
            ensure_outcome(computation, error, predicate, result),
    ;

    /// Keeps a success that satisfies `predicate` and replaces one that does
    /// not by the error that `error_fn` makes from it; an error is kept.
    fn ensure_or<A, F: FnOnce(&A) -> E, P: FnOnce(&A) -> bool>(computation: Result<A, E>, error_fn: F, predicate: P) -> (result: Result<A, E>)
        requires
            computation matches Ok(v) ==> predicate.requires((&v,)),
            computation matches Ok(v) ==> error_fn.requires((&v,)),
        ensures
            ensure_or_outcome(computation, error_fn, predicate, result),
    ;

    /// Turns either outcome into a success: an error by `recover`, a
    /// success by `transform`.
    fn redeem<A, B, Rv: FnOnce(E) -> B, T: FnOnce(A) -> B>(computation: Result<A, E>, recover: Rv, transform: T) -> (result: Result<B, E>)
        requires
            computation matches Err(e) ==> recover.requires((e,)),
            computation matches Ok(v) ==> transform.requires((v,)),
        ensures
            redeem_outcome(computation, recover, transform, result),
    ;

    /// Continues either outcome with a computation: an error by `recover`,
    /// a success by `bind`.
    fn redeem_with<A, B, Rv: FnOnce(E) -> Result<B, E>, Bn: FnOnce(A) -> Result<B, E>>(computation: Result<A, E>, recover: Rv, bind: Bn) -> (result: Result<B, E>)
        requires
            computation matches Err(e) ==> recover.requires((e,)),
            computation matches Ok(v) ==> bind.requires((v,)),
        ensures
            redeem_with_outcome(computation, recover, bind, result),
    ;
}

impl<V, E: Clone> MonadError<E> for Result<V, E> {
    fn throw_error<A>(error: E) -> (result: Result<A, E>) {
        Err(error)
    }

    fn catch_error<A, F: FnOnce(E) -> Result<A, E>>(computation: Result<A, E>, handler: F) -> (result: Result<A, E>) {
        match computation {
            Ok(v) => Ok(v),
            Err(e) => handler(e),
        }
    }

    fn from_result<A>(result: Result<A, E>) -> (computation: Result<A, E>) {
        result
    }

    fn recover_with<A>(computation: Result<A, E>, default: Result<A, E>) -> (result: Result<A, E>) {
        match computation {
            Ok(v) => Ok(v),
            Err(_) => default,
        }
    }

    fn adapt_error<A, F: FnOnce(E) -> E>(computation: Result<A, E>, transform: F) -> (result: Result<A, E>) {
        match computation {
            Ok(v) => Ok(v),
            Err(e) => Err(transform(e)),
        }
    }

    fn handle_error<A, F: FnOnce(E) -> A>(computation: Result<A, E>, handler: F) -> (result: Result<A, E>) {
        match computation {
            Ok(v) => Ok(v),
            Err(e) => Ok(handler(e)),
        }
    }

    fn recover<A, F: FnOnce(&E) -> Option<A>>(computation: Result<A, E>, partial_handler: F) -> (result: Result<A, E>) {
        match computation {
            Ok(v) => Ok(v),
            Err(e) => {
                let answer = partial_handler(&e);
                let ghost kept = answer;
                let result = match answer {
                    Some(v) => Ok(v),
                    None => Err(e),
                };
                assert(partial_handler.ensures((&e,), kept));
                result
            },
        }
    }

    fn recover_with_partial<A, F: FnOnce(&E) -> Option<Result<A, E>>>(computation: Result<A, E>, partial_handler: F) -> (result: Result<A, E>) {
        match computation {
            Ok(v) => Ok(v),
            Err(e) => {
                let answer = partial_handler(&e);
                let ghost kept = answer;
                let result = match answer {
                    Some(r) => r,
                    None => Err(e),
                };
                assert(partial_handler.ensures((&e,), kept));
                result
            },
        }
    }

    fn ensure<A, F: FnOnce() -> E, P: FnOnce(&A) -> bool>(computation: Result<A, E>, error: F, predicate: P) -> (result: Result<A, E>) {
        match computation {
            Ok(v) => {
                let holds = predicate(&v);
                assert(predicate.ensures((&v,), holds));
                if holds {
                    Ok(v)
                } else {
                    Err(error())
                }
            },
            Err(e) => Err(e),
        }
    }

    fn ensure_or<A, F: FnOnce(&A) -> E, P: FnOnce(&A) -> bool>(computation: Result<A, E>, error_fn: F, predicate: P) -> (result: Result<A, E>) {
        match computation {
            Ok(v) => {
                let holds = predicate(&v);
                assert(predicate.ensures((&v,), holds));
                if holds {
                    Ok(v)
                } else {
                    Err(error_fn(&v))
                }
            },
            Err(e) => Err(e),
        }
    }

    fn redeem<A, B, Rv: FnOnce(E) -> B, T: FnOnce(A) -> B>(computation: Result<A, E>, recover: Rv, transform: T) -> (result: Result<B, E>) {
        match computation {
            Ok(v) => Ok(transform(v)),
            Err(e) => Ok(recover(e)),
        }
    }

    fn redeem_with<A, B, Rv: FnOnce(E) -> Result<B, E>, Bn: FnOnce(A) -> Result<B, E>>(computation: Result<A, E>, recover: Rv, bind: Bn) -> (result: Result<B, E>) {
        match computation {
            Ok(v) => bind(v),
            Err(e) => recover(e),
        }
    }
}

/// `map_error` on a result gives exactly `map_error_outcome`.
pub proof fn lemma_map_error_on_result<A, E, E2, F: FnOnce(E) -> E2>(computation: Result<A, E>, transform: F, result: Result<A, E2>)
    requires
        forall|v: A| #[trigger] computation.succeeded_with(v) ==> result == Ok::<A, E2>(v),
        forall|e: E| #[trigger] computation.failed_with(e) ==> (result matches Err(e2) && transform.ensures((e,), e2)),
    ensures
        map_error_outcome(computation, transform, result),
{
    match computation {
        Ok(v) => assert(computation.succeeded_with(v)),
        Err(e) => assert(computation.failed_with(e)),
    }
}

/// Throw then catch: catching a thrown error applies the handler to it.
pub proof fn law_throw_catch<A, E, F: FnOnce(E) -> Result<A, E>>(error: E, handler: F, result: Result<A, E>)
    requires
        catch_outcome(Err::<A, E>(error), handler, result),
    ensures
        handler.ensures((error,), result),
{
}

/// Catch pure: catching a success gives it back.
pub proof fn law_catch_pure<A, E, F: FnOnce(E) -> Result<A, E>>(value: A, handler: F, result: Result<A, E>)
    requires
        catch_outcome(Ok::<A, E>(value), handler, result),
    ensures
        result == Ok::<A, E>(value),
{
}

/// Throw short-circuit: sequencing after a thrown error gives the error.
pub proof fn law_throw_short_circuit<A, B, E>(error: E, result: Result<B, E>)
    requires
        crate::typeclass::Monad::<Result<B, E>>::stopped_at(&Err::<A, E>(error), result),
    ensures
        result == Err::<B, E>(error),
{
}

/// `map_error` identity: transforming by a function that returns its
/// argument changes nothing.
pub proof fn law_map_error_identity<A, E, F: FnOnce(E) -> E>(computation: Result<A, E>, identity: F, result: Result<A, E>)
    requires
        forall|e: E, e2: E| #[trigger] identity.ensures((e,), e2) ==> e2 == e,
        map_error_outcome(computation, identity, result),
    ensures
        result == computation,
{
}

/// `map_error` composition: transforming by `f` and then by `g` transforms
/// the error by `f` followed by `g`.
pub proof fn law_map_error_composition<A, E, E2, E3, F: FnOnce(E) -> E2, G: FnOnce(E2) -> E3>(
    computation: Result<A, E>,
    f: F,
    g: G,
    middle: Result<A, E2>,
    result: Result<A, E3>,
)
    requires
        map_error_outcome(computation, f, middle),
        map_error_outcome(middle, g, result),
    ensures
        match computation {
            Ok(v) => result == Ok::<A, E3>(v),
            Err(e) => result matches Err(e3) && exists|e2: E2| #[trigger] f.ensures((e,), e2) && g.ensures((e2,), e3),
        },
{
    if let Err(e) = computation {
        let e2 = middle->Err_0;
        assert(f.ensures((e,), e2));
    }
}

/// `map_error` success preservation: a success is kept.
pub proof fn law_map_error_success<A, E, E2, F: FnOnce(E) -> E2>(value: A, transform: F, result: Result<A, E2>)
    requires
        map_error_outcome(Ok::<A, E>(value), transform, result),
    ensures
        result == Ok::<A, E2>(value),
{
}

/// Handle throw: handling a thrown error gives a success with what the
/// handler returns for it; a success is kept.
pub proof fn law_handle_throw<A, E, F: FnOnce(E) -> A>(computation: Result<A, E>, handler: F, result: Result<A, E>)
    requires
        handle_outcome(computation, handler, result),
    ensures
        computation matches Err(e) ==> (result matches Ok(v) && handler.ensures((e,), v)),
        computation matches Ok(v) ==> result == Ok::<A, E>(v),
{
}

/// Recover: a thrown error that the handler answers with a value becomes a
/// success with that value; one it answers with nothing is kept; a success
/// is kept.
pub proof fn law_recover_throw<A, E, F: FnOnce(&E) -> Option<A>>(computation: Result<A, E>, partial_handler: F, answer: Option<A>, result: Result<A, E>)
    requires
        recover_outcome(computation, partial_handler, result),
        computation matches Err(e) ==> forall|a: Option<A>| #[trigger] partial_handler.ensures((&e,), a) ==> a == answer,
    ensures
        computation matches Err(e) ==> result == (match answer {
            Some(v) => Ok::<A, E>(v),
            None => Err(e),
        }),
        computation matches Ok(v) ==> result == Ok::<A, E>(v),
{
}

/// Recover with a computation: a thrown error that the handler answers
/// with a computation becomes that computation; one it answers with nothing
/// is kept; a success is kept.
pub proof fn law_recover_partial_throw<A, E, F: FnOnce(&E) -> Option<Result<A, E>>>(
    computation: Result<A, E>,
    partial_handler: F,
    answer: Option<Result<A, E>>,
    result: Result<A, E>,
)
    requires
        recover_partial_outcome(computation, partial_handler, result),
        computation matches Err(e) ==> forall|a: Option<Result<A, E>>| #[trigger] partial_handler.ensures((&e,), a) ==> a == answer,
    ensures
        computation matches Err(e) ==> result == (match answer {
            Some(r) => r,
            None => Err(e),
        }),
        computation matches Ok(v) ==> result == Ok::<A, E>(v),
{
}

/// Ensure: a success that the predicate accepts is kept, one that it
/// rejects becomes the thrown error; an error is kept.
pub proof fn law_ensure<A, E, F: FnOnce() -> E, P: FnOnce(&A) -> bool>(computation: Result<A, E>, error: F, predicate: P, verdict: bool, result: Result<A, E>)
    requires
        ensure_outcome(computation, error, predicate, result),
        computation matches Ok(v) ==> forall|b: bool| #[trigger] predicate.ensures((&v,), b) ==> b == verdict,
    ensures
        computation matches Ok(v) ==> if verdict {
            result == Ok::<A, E>(v)
        } else {
            result matches Err(e) && error.ensures((), e)
        },
        computation matches Err(e) ==> result == Err::<A, E>(e),
{
}

/// Ensure with an error made from the value: a success that the predicate
/// accepts is kept, one that it rejects becomes the error made from it; an
/// error is kept.
pub proof fn law_ensure_or<A, E, F: FnOnce(&A) -> E, P: FnOnce(&A) -> bool>(computation: Result<A, E>, error_fn: F, predicate: P, verdict: bool, result: Result<A, E>)
    requires
        ensure_or_outcome(computation, error_fn, predicate, result),
        computation matches Ok(v) ==> forall|b: bool| #[trigger] predicate.ensures((&v,), b) ==> b == verdict,
    ensures
        computation matches Ok(v) ==> if verdict {
            result == Ok::<A, E>(v)
        } else {
            result matches Err(e) && error_fn.ensures((&v,), e)
        },
        computation matches Err(e) ==> result == Err::<A, E>(e),
{
}

/// Redeem: either outcome becomes a success, a success by `transform` and
/// a thrown error by `recover`.
pub proof fn law_redeem<A, B, E, Rv: FnOnce(E) -> B, T: FnOnce(A) -> B>(computation: Result<A, E>, recover: Rv, transform: T, result: Result<B, E>)
    requires
        redeem_outcome(computation, recover, transform, result),
    ensures
        result is Ok,
        computation matches Ok(v) ==> transform.ensures((v,), result->Ok_0),
        computation matches Err(e) ==> recover.ensures((e,), result->Ok_0),
{
}

/// Redeem with computations: a success continues by `bind`, a thrown error
/// by `recover`.
pub proof fn law_redeem_with<A, B, E, Rv: FnOnce(E) -> Result<B, E>, Bn: FnOnce(A) -> Result<B, E>>(
    computation: Result<A, E>,
    recover: Rv,
    bind: Bn,
    result: Result<B, E>,
)
    requires
        redeem_with_outcome(computation, recover, bind, result),
    ensures
        computation matches Ok(v) ==> bind.ensures((v,), result),
        computation matches Err(e) ==> recover.ensures((e,), result),
{
}

} // verus!
