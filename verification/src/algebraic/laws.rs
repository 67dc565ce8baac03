//! The laws of effectful computations, stated over their outcome relations.
//!
//! The combinators' contracts relate the outcomes of their result to those
//! of their arguments through the operations defined here: `bind_outcomes`
//! for `flat_map`, `map_outcomes` for `fmap`, `then_outcomes` for `then`.

use vstd::prelude::*;
use crate::algebraic::eff::{bound_outcome, Eff, Program};
use crate::algebraic::effect::Effect;
use crate::algebraic::handler::Handler;
use crate::algebraic::eff::Done;
use crate::algebraic::state::{StateEffect, StateHandler};
use crate::algebraic::reader::{ReaderEffect, ReaderHandler};
use crate::algebraic::error::{ErrorEffect, ErrorHandler};
use crate::algebraic::handler::PureHandler;
use crate::algebraic::effect::NoEffect;
use crate::algebraic::row::Member;
use crate::typeclass::Monoid;

verus! {

/// The outcomes of a computation: from the context before, the result and
/// the context after.
pub type Outcomes<C, A, S> = spec_fn(C, Result<A, S>, C) -> bool;

/// The outcomes of a computation that produces `a` and changes nothing.
pub open spec fn pure_outcomes<C, A, S>(a: A) -> Outcomes<C, A, S> {
    |before: C, result: Result<A, S>, after: C| result == Ok::<A, S>(a) && after == before
}

/// The outcomes of running `m`, then what `k` chooses for its value; a
/// stop of `m` ends the run.
pub open spec fn bind_outcomes<C, A, B, S>(m: Outcomes<C, A, S>, k: spec_fn(A, Outcomes<C, B, S>) -> bool) -> Outcomes<C, B, S> {
    |before: C, result: Result<B, S>, after: C| {
        ||| exists|mid: C, a: A, n: Outcomes<C, B, S>| #[trigger] m(before, Ok(a), mid) && #[trigger] k(a, n) && n(mid, result, after)
        ||| exists|stop: S| #[trigger] m(before, Err(stop), after) && result == Err::<B, S>(stop)
    }
}

/// The outcomes of `m` with its value passed through relation `f`.
pub open spec fn map_outcomes<C, A, B, S>(m: Outcomes<C, A, S>, f: spec_fn(A, B) -> bool) -> Outcomes<C, B, S> {
    |before: C, result: Result<B, S>, after: C| {
        ||| exists|a: A, b: B| #[trigger] m(before, Ok(a), after) && #[trigger] f(a, b) && result == Ok::<B, S>(b)
        ||| exists|stop: S| #[trigger] m(before, Err(stop), after) && result == Err::<B, S>(stop)
    }
}

/// The outcomes of running `m`, discarding its value, then `n`.
pub open spec fn then_outcomes<C, A, B, S>(m: Outcomes<C, A, S>, n: Outcomes<C, B, S>) -> Outcomes<C, B, S> {
    |before: C, result: Result<B, S>, after: C| {
        ||| exists|mid: C, a: A| #[trigger] m(before, Ok(a), mid) && n(mid, result, after)
        ||| exists|stop: S| #[trigger] m(before, Err(stop), after) && result == Err::<B, S>(stop)
    }
}

/// What a continuation returning computations relates each value to: the
/// outcomes of the computations it may return.
pub open spec fn eff_kleisli<E: Effect, A, B, Q: Program<E, B>, K: FnOnce(A) -> Eff<E, B, Q>>(k: K) -> spec_fn(A, Outcomes<E::Context, B, E::Abort>) -> bool {
    |a: A, n: Outcomes<E::Context, B, E::Abort>| exists|next: Eff<E, B, Q>| #[trigger] k.ensures((a,), next) && next.outcomes() == n
}

/// The outcomes that the contract of `flat_map` allows are those of
/// `bind_outcomes` on the outcomes of the computation and the continuation.
pub proof fn lemma_flat_map_binds<E: Effect, A, B, P: Program<E, A>, Q: Program<E, B>, K: FnOnce(A) -> Eff<E, B, Q>>(
    m: Eff<E, A, P>,
    k: K,
    before: E::Context,
    result: Result<B, E::Abort>,
    after: E::Context,
)
    ensures
        bound_outcome(m, k, before, result, after) == bind_outcomes(m.outcomes(), eff_kleisli(k))(before, result, after),
{
    if bound_outcome(m, k, before, result, after) {
        if exists|mid: E::Context, a: A, next: Eff<E, B, Q>|
            #[trigger] m.outcome(before, Ok(a), mid) && #[trigger] k.ensures((a,), next) && next.outcome(mid, result, after) {
            let (mid, a, next) = choose|mid: E::Context, a: A, next: Eff<E, B, Q>|
                #[trigger] m.outcome(before, Ok(a), mid) && #[trigger] k.ensures((a,), next) && next.outcome(mid, result, after);
            assert(m.outcomes()(before, Ok(a), mid) && eff_kleisli(k)(a, next.outcomes()) && next.outcomes()(mid, result, after));
        } else {
            let stop = choose|stop: E::Abort| #[trigger] m.outcome(before, Err(stop), after) && result == Err::<B, E::Abort>(stop);
            assert(m.outcomes()(before, Err(stop), after));
        }
    }
    if bind_outcomes(m.outcomes(), eff_kleisli(k))(before, result, after) {
        if exists|mid: E::Context, a: A, n: Outcomes<E::Context, B, E::Abort>|
            #[trigger] m.outcomes()(before, Ok(a), mid) && #[trigger] eff_kleisli(k)(a, n) && n(mid, result, after) {
            let (mid, a, n) = choose|mid: E::Context, a: A, n: Outcomes<E::Context, B, E::Abort>|
                #[trigger] m.outcomes()(before, Ok(a), mid) && #[trigger] eff_kleisli(k)(a, n) && n(mid, result, after);
            let next = choose|next: Eff<E, B, Q>| #[trigger] k.ensures((a,), next) && next.outcomes() == n;
            assert(m.outcome(before, Ok(a), mid) && next.outcomes()(mid, result, after));
        } else {
            let stop = choose|stop: E::Abort| #[trigger] m.outcomes()(before, Err(stop), after) && result == Err::<B, E::Abort>(stop);
            assert(m.outcome(before, Err(stop), after));
        }
    }
}

/// Monad left identity: sequencing a computation that produces `a` with `k`
/// gives the outcomes of what `k` chooses for `a`.
pub proof fn law_left_identity<C, A, B, S>(a: A, k: spec_fn(A, Outcomes<C, B, S>) -> bool)
    ensures
        bind_outcomes(pure_outcomes::<C, A, S>(a), k)
            == (|before: C, result: Result<B, S>, after: C| exists|n: Outcomes<C, B, S>| #[trigger] k(a, n) && n(before, result, after)),
{
    let lhs = bind_outcomes(pure_outcomes::<C, A, S>(a), k);
    let rhs = |before: C, result: Result<B, S>, after: C| exists|n: Outcomes<C, B, S>| #[trigger] k(a, n) && n(before, result, after);
    assert forall|before: C, result: Result<B, S>, after: C| #[trigger] lhs(before, result, after) == rhs(before, result, after) by {
        if rhs(before, result, after) {
            let n = choose|n: Outcomes<C, B, S>| #[trigger] k(a, n) && n(before, result, after);
            assert(pure_outcomes::<C, A, S>(a)(before, Ok(a), before));
        }
    }
    assert(lhs =~= rhs);
}

/// Monad right identity: sequencing with the continuation that produces
/// its argument changes nothing.
pub proof fn law_right_identity<C, A, S>(m: Outcomes<C, A, S>)
    ensures
        bind_outcomes(m, |a: A, n: Outcomes<C, A, S>| n == pure_outcomes::<C, A, S>(a)) == m,
{
    let k = |a: A, n: Outcomes<C, A, S>| n == pure_outcomes::<C, A, S>(a);
    let lhs = bind_outcomes(m, k);
    assert forall|before: C, result: Result<A, S>, after: C| #[trigger] lhs(before, result, after) == m(before, result, after) by {
        if m(before, result, after) {
            match result {
                Ok(a) => {
                    assert(k(a, pure_outcomes::<C, A, S>(a)) && pure_outcomes::<C, A, S>(a)(after, result, after));
                },
                Err(stop) => {},
            }
        }
    }
    assert(lhs =~= m);
}

/// Monad associativity: sequencing with `f` and then with `g` is
/// sequencing with "`f`, then `g`".
pub proof fn law_associativity<C, A, B, D, S>(
    m: Outcomes<C, A, S>,
    f: spec_fn(A, Outcomes<C, B, S>) -> bool,
    g: spec_fn(B, Outcomes<C, D, S>) -> bool,
)
    ensures
        bind_outcomes(bind_outcomes(m, f), g) == bind_outcomes(
            m,
            |a: A, n: Outcomes<C, D, S>| exists|n1: Outcomes<C, B, S>| #[trigger] f(a, n1) && n == bind_outcomes(n1, g),
        ),
{
    let k = |a: A, n: Outcomes<C, D, S>| exists|n1: Outcomes<C, B, S>| #[trigger] f(a, n1) && n == bind_outcomes(n1, g);
    let lhs = bind_outcomes(bind_outcomes(m, f), g);
    let rhs = bind_outcomes(m, k);
    assert forall|before: C, result: Result<D, S>, after: C| #[trigger] lhs(before, result, after) == rhs(before, result, after) by {
        if lhs(before, result, after) {
            if exists|mid: C, b: B, n2: Outcomes<C, D, S>|
                #[trigger] bind_outcomes(m, f)(before, Ok(b), mid) && #[trigger] g(b, n2) && n2(mid, result, after) {
                let (mid, b, n2) = choose|mid: C, b: B, n2: Outcomes<C, D, S>|
                    #[trigger] bind_outcomes(m, f)(before, Ok(b), mid) && #[trigger] g(b, n2) && n2(mid, result, after);
                if exists|mid0: C, a: A, n1: Outcomes<C, B, S>| #[trigger] m(before, Ok(a), mid0) && #[trigger] f(a, n1) && n1(mid0, Ok(b), mid) {
                    let (mid0, a, n1) = choose|mid0: C, a: A, n1: Outcomes<C, B, S>|
                        #[trigger] m(before, Ok(a), mid0) && #[trigger] f(a, n1) && n1(mid0, Ok(b), mid);
                    assert(bind_outcomes(n1, g)(mid0, result, after));
                    assert(k(a, bind_outcomes(n1, g)));
                } else {
                    let stop = choose|stop: S| #[trigger] m(before, Err(stop), mid) && Ok::<B, S>(b) == Err::<B, S>(stop);
                }
            } else {
                let stop = choose|stop: S| #[trigger] bind_outcomes(m, f)(before, Err(stop), after) && result == Err::<D, S>(stop);
                if exists|mid0: C, a: A, n1: Outcomes<C, B, S>| #[trigger] m(before, Ok(a), mid0) && #[trigger] f(a, n1) && n1(mid0, Err(stop), after) {
                    let (mid0, a, n1) = choose|mid0: C, a: A, n1: Outcomes<C, B, S>|
                        #[trigger] m(before, Ok(a), mid0) && #[trigger] f(a, n1) && n1(mid0, Err(stop), after);
                    assert(bind_outcomes(n1, g)(mid0, result, after));
                    assert(k(a, bind_outcomes(n1, g)));
                } else {
                    let stop2 = choose|stop2: S| #[trigger] m(before, Err(stop2), after) && Err::<B, S>(stop) == Err::<B, S>(stop2);
                }
            }
        }
        if rhs(before, result, after) {
            if exists|mid0: C, a: A, n: Outcomes<C, D, S>| #[trigger] m(before, Ok(a), mid0) && #[trigger] k(a, n) && n(mid0, result, after) {
                let (mid0, a, n) = choose|mid0: C, a: A, n: Outcomes<C, D, S>|
                    #[trigger] m(before, Ok(a), mid0) && #[trigger] k(a, n) && n(mid0, result, after);
                let n1 = choose|n1: Outcomes<C, B, S>| #[trigger] f(a, n1) && n == bind_outcomes(n1, g);
                if exists|mid: C, b: B, n2: Outcomes<C, D, S>| #[trigger] n1(mid0, Ok(b), mid) && #[trigger] g(b, n2) && n2(mid, result, after) {
                    let (mid, b, n2) = choose|mid: C, b: B, n2: Outcomes<C, D, S>|
                        #[trigger] n1(mid0, Ok(b), mid) && #[trigger] g(b, n2) && n2(mid, result, after);
                    assert(bind_outcomes(m, f)(before, Ok(b), mid));
                } else {
                    let stop = choose|stop: S| #[trigger] n1(mid0, Err(stop), after) && result == Err::<D, S>(stop);
                    assert(bind_outcomes(m, f)(before, Err(stop), after));
                }
            } else {
                let stop = choose|stop: S| #[trigger] m(before, Err(stop), after) && result == Err::<D, S>(stop);
                assert(bind_outcomes(m, f)(before, Err(stop), after));
            }
        }
    }
    assert(lhs =~= rhs);
}

/// Every outcome in `s` is in `t`.
pub open spec fn outcomes_within<C, A, S>(s: Outcomes<C, A, S>, t: Outcomes<C, A, S>) -> bool {
    forall|before: C, result: Result<A, S>, after: C| #[trigger] s(before, result, after) ==> t(before, result, after)
}

/// From `before`, the outcomes `o` allow at most one result and context.
pub open spec fn single_outcome<C, A, S>(o: Outcomes<C, A, S>, before: C) -> bool {
    forall|x: Result<A, S>, y: C, x2: Result<A, S>, y2: C|
        #![trigger o(before, x, y), o(before, x2, y2)]
        o(before, x, y) && o(before, x2, y2) ==> x == x2 && y == y2
}

/// Sequencing is monotone: fewer outcomes of the first part, and
/// continuations each chosen within another's, give fewer outcomes.
pub proof fn lemma_bind_within<C, A, B, S>(
    m1: Outcomes<C, A, S>,
    m2: Outcomes<C, A, S>,
    k1: spec_fn(A, Outcomes<C, B, S>) -> bool,
    k2: spec_fn(A, Outcomes<C, B, S>) -> bool,
)
    requires
        outcomes_within(m1, m2),
        forall|a: A, n: Outcomes<C, B, S>| #[trigger] k1(a, n) ==> exists|n2: Outcomes<C, B, S>| #[trigger] k2(a, n2) && outcomes_within(n, n2),
    ensures
        outcomes_within(bind_outcomes(m1, k1), bind_outcomes(m2, k2)),
{
    assert forall|before: C, result: Result<B, S>, after: C| #[trigger] bind_outcomes(m1, k1)(before, result, after)
        implies bind_outcomes(m2, k2)(before, result, after) by {
        if exists|mid: C, a: A, n: Outcomes<C, B, S>| #[trigger] m1(before, Ok(a), mid) && #[trigger] k1(a, n) && n(mid, result, after) {
            let (mid, a, n) = choose|mid: C, a: A, n: Outcomes<C, B, S>| #[trigger] m1(before, Ok(a), mid) && #[trigger] k1(a, n) && n(mid, result, after);
            let n2 = choose|n2: Outcomes<C, B, S>| #[trigger] k2(a, n2) && outcomes_within(n, n2);
            assert(m2(before, Ok(a), mid));
            assert(n2(mid, result, after));
        } else {
            let stop = choose|stop: S| #[trigger] m1(before, Err(stop), after) && result == Err::<B, S>(stop);
            assert(m2(before, Err(stop), after));
        }
    }
}

/// The outcomes of running `m`, passing its value to `f`, and passing the
/// value of `f`'s computation to `g`: both ways of nesting `flat_map` stay
/// within them.
pub open spec fn chained_outcomes<E: Effect, A, B, C, P: Program<E, A>, Q: Program<E, B>, R: Program<E, C>, K: FnOnce(A) -> Eff<E, B, Q>, L: FnOnce(B) -> Eff<E, C, R>>(
    m: Eff<E, A, P>,
    f: K,
    g: L,
) -> Outcomes<E::Context, C, E::Abort> {
    bind_outcomes(
        m.outcomes(),
        |a: A, n: Outcomes<E::Context, C, E::Abort>| exists|n1: Outcomes<E::Context, B, E::Abort>|
            #[trigger] eff_kleisli(f)(a, n1) && n == bind_outcomes(n1, eff_kleisli(g)),
    )
}

/// Monad associativity for computations: `m.flat_map(f).flat_map(g)` and
/// `m.flat_map(k)`, where `k` returns `f(a).flat_map(g)`, both stay within
/// the outcomes of running `m`, then `f`, then `g`. So two handler runs of
/// the two from the same context give the same result and context
/// wherever those outcomes allow only one.
pub proof fn law_flat_map_associativity<
    E: Effect, A, B, C,
    P: Program<E, A>, Q: Program<E, B>, R: Program<E, C>, PF: Program<E, B>, PL: Program<E, C>, PR: Program<E, C>, QK: Program<E, C>,
    K: FnOnce(A) -> Eff<E, B, Q>, L: FnOnce(B) -> Eff<E, C, R>, J: FnOnce(A) -> Eff<E, C, QK>,
>(
    m: Eff<E, A, P>,
    f: K,
    g: L,
    k: J,
    mf: Eff<E, B, PF>,
    lhs: Eff<E, C, PL>,
    rhs: Eff<E, C, PR>,
)
    requires
        forall|before: E::Context, result: Result<B, E::Abort>, after: E::Context| #[trigger] mf.outcome(before, result, after)
            ==> bound_outcome(m, f, before, result, after),
        forall|before: E::Context, result: Result<C, E::Abort>, after: E::Context| #[trigger] lhs.outcome(before, result, after)
            ==> bound_outcome(mf, g, before, result, after),
        forall|before: E::Context, result: Result<C, E::Abort>, after: E::Context| #[trigger] rhs.outcome(before, result, after)
            ==> bound_outcome(m, k, before, result, after),
        forall|a: A, nk: Eff<E, C, QK>| #[trigger] k.ensures((a,), nk) ==> exists|nf: Eff<E, B, Q>| #[trigger] f.ensures((a,), nf)
            && forall|before: E::Context, result: Result<C, E::Abort>, after: E::Context| #[trigger] nk.outcome(before, result, after)
                ==> bound_outcome(nf, g, before, result, after),
    ensures
        outcomes_within(lhs.outcomes(), chained_outcomes(m, f, g)),
        outcomes_within(rhs.outcomes(), chained_outcomes(m, f, g)),
        forall|before: E::Context, r1: Result<C, E::Abort>, after1: E::Context, r2: Result<C, E::Abort>, after2: E::Context|
            #[trigger] lhs.outcome(before, r1, after1) && #[trigger] rhs.outcome(before, r2, after2)
                && single_outcome(chained_outcomes(m, f, g), before)
                ==> r1 == r2 && after1 == after2,
{
    let kf = eff_kleisli(f);
    let kg = eff_kleisli(g);
    let kk = eff_kleisli(k);
    let chained = chained_outcomes(m, f, g);
    // The left side.
    assert(outcomes_within(mf.outcomes(), bind_outcomes(m.outcomes(), kf))) by {
        assert forall|before: E::Context, result: Result<B, E::Abort>, after: E::Context| #[trigger] mf.outcomes()(before, result, after)
            implies bind_outcomes(m.outcomes(), kf)(before, result, after) by {
            lemma_flat_map_binds(m, f, before, result, after);
        }
    }
    assert(outcomes_within(lhs.outcomes(), bind_outcomes(mf.outcomes(), kg))) by {
        assert forall|before: E::Context, result: Result<C, E::Abort>, after: E::Context| #[trigger] lhs.outcomes()(before, result, after)
            implies bind_outcomes(mf.outcomes(), kg)(before, result, after) by {
            lemma_flat_map_binds(mf, g, before, result, after);
        }
    }
    assert forall|b: B, n: Outcomes<E::Context, C, E::Abort>| #[trigger] kg(b, n)
        implies exists|n2: Outcomes<E::Context, C, E::Abort>| #[trigger] kg(b, n2) && outcomes_within(n, n2) by {
        assert(outcomes_within(n, n));
    }
    lemma_bind_within(mf.outcomes(), bind_outcomes(m.outcomes(), kf), kg, kg);
    law_associativity(m.outcomes(), kf, kg);
    // The right side.
    assert(outcomes_within(rhs.outcomes(), bind_outcomes(m.outcomes(), kk))) by {
        assert forall|before: E::Context, result: Result<C, E::Abort>, after: E::Context| #[trigger] rhs.outcomes()(before, result, after)
            implies bind_outcomes(m.outcomes(), kk)(before, result, after) by {
            lemma_flat_map_binds(m, k, before, result, after);
        }
    }
    let k2 = |a: A, n: Outcomes<E::Context, C, E::Abort>| exists|n1: Outcomes<E::Context, B, E::Abort>|
        #[trigger] kf(a, n1) && n == bind_outcomes(n1, kg);
    assert forall|a: A, n: Outcomes<E::Context, C, E::Abort>| #[trigger] kk(a, n)
        implies exists|n2: Outcomes<E::Context, C, E::Abort>| #[trigger] k2(a, n2) && outcomes_within(n, n2) by {
        let nk = choose|nk: Eff<E, C, QK>| #[trigger] k.ensures((a,), nk) && nk.outcomes() == n;
        let nf = choose|nf: Eff<E, B, Q>| #[trigger] f.ensures((a,), nf)
            && forall|before: E::Context, result: Result<C, E::Abort>, after: E::Context| #[trigger] nk.outcome(before, result, after)
                ==> bound_outcome(nf, g, before, result, after);
        let n2 = bind_outcomes(nf.outcomes(), kg);
        assert(kf(a, nf.outcomes()));
        assert(k2(a, n2));
        assert forall|before: E::Context, result: Result<C, E::Abort>, after: E::Context| #[trigger] n(before, result, after)
            implies n2(before, result, after) by {
            assert(nk.outcome(before, result, after));
            lemma_flat_map_binds(nf, g, before, result, after);
        }
    }
    lemma_bind_within(m.outcomes(), m.outcomes(), kk, k2);
    assert(chained == bind_outcomes(m.outcomes(), k2));
    assert forall|before: E::Context, r1: Result<C, E::Abort>, after1: E::Context, r2: Result<C, E::Abort>, after2: E::Context|
        #[trigger] lhs.outcome(before, r1, after1) && #[trigger] rhs.outcome(before, r2, after2)
            && single_outcome(chained, before)
        implies r1 == r2 && after1 == after2 by {
        assert(lhs.outcomes()(before, r1, after1));
        assert(rhs.outcomes()(before, r2, after2));
        assert(chained(before, r1, after1));
        assert(chained(before, r2, after2));
    }
}

/// Functor identity: mapping by a relation that relates each value only to
/// itself adds no outcome.
pub proof fn law_map_identity<C, A, S>(m: Outcomes<C, A, S>, id: spec_fn(A, A) -> bool)
    requires
        forall|a: A, b: A| #[trigger] id(a, b) ==> a == b,
    ensures
        forall|before: C, result: Result<A, S>, after: C| #[trigger] map_outcomes(m, id)(before, result, after) ==> m(before, result, after),
{
    assert forall|before: C, result: Result<A, S>, after: C| #[trigger] map_outcomes(m, id)(before, result, after) implies m(before, result, after) by {
        if exists|a: A, b: A| #[trigger] m(before, Ok(a), after) && #[trigger] id(a, b) && result == Ok::<A, S>(b) {
            let (a, b) = choose|a: A, b: A| #[trigger] m(before, Ok(a), after) && #[trigger] id(a, b) && result == Ok::<A, S>(b);
        }
    }
}

/// Functor composition: mapping by `f` and then by `g` is mapping by their
/// composition.
pub proof fn law_map_composition<C, A, B, D, S>(m: Outcomes<C, A, S>, f: spec_fn(A, B) -> bool, g: spec_fn(B, D) -> bool)
    ensures
        map_outcomes(map_outcomes(m, f), g) == map_outcomes(m, crate::outcome::compose(f, g)),
{
    let lhs = map_outcomes(map_outcomes(m, f), g);
    let rhs = map_outcomes(m, crate::outcome::compose(f, g));
    assert forall|before: C, result: Result<D, S>, after: C| #[trigger] lhs(before, result, after) == rhs(before, result, after) by {
        if exists|b: B, d: D| #[trigger] map_outcomes(m, f)(before, Ok(b), after) && #[trigger] g(b, d) && result == Ok::<D, S>(d) {
            let (b, d) = choose|b: B, d: D| #[trigger] map_outcomes(m, f)(before, Ok(b), after) && #[trigger] g(b, d) && result == Ok::<D, S>(d);
            let (a, b2) = choose|a: A, b2: B| #[trigger] m(before, Ok(a), after) && #[trigger] f(a, b2) && Ok::<B, S>(b) == Ok::<B, S>(b2);
            assert(crate::outcome::compose(f, g)(a, d));
        }
        if exists|a: A, d: D| #[trigger] m(before, Ok(a), after) && #[trigger] crate::outcome::compose(f, g)(a, d) && result == Ok::<D, S>(d) {
            let (a, d) = choose|a: A, d: D| #[trigger] m(before, Ok(a), after) && #[trigger] crate::outcome::compose(f, g)(a, d) && result == Ok::<D, S>(d);
            let b = choose|b: B| #[trigger] f(a, b) && g(b, d);
            assert(map_outcomes(m, f)(before, Ok(b), after));
        }
        if exists|stop: S| #[trigger] map_outcomes(m, f)(before, Err(stop), after) && result == Err::<D, S>(stop) {
            let stop = choose|stop: S| #[trigger] map_outcomes(m, f)(before, Err(stop), after) && result == Err::<D, S>(stop);
            if exists|a: A, b: B| #[trigger] m(before, Ok(a), after) && #[trigger] f(a, b) && Err::<B, S>(stop) == Ok::<B, S>(b) {
                let (a, b) = choose|a: A, b: B| #[trigger] m(before, Ok(a), after) && #[trigger] f(a, b) && Err::<B, S>(stop) == Ok::<B, S>(b);
            }
            assert(m(before, Err(stop), after));
        }
        if exists|stop: S| #[trigger] m(before, Err(stop), after) && result == Err::<D, S>(stop) {
            let stop = choose|stop: S| #[trigger] m(before, Err(stop), after) && result == Err::<D, S>(stop);
            assert(map_outcomes(m, f)(before, Err(stop), after));
        }
    }
    assert(lhs =~= rhs);
}

/// State: after replacing the state by `s`, a request for the state
/// produces a clone of `s`, and the state stays `s`.
pub proof fn law_put_then_get<S: Clone>(s: S, put: Outcomes<S, (), crate::algebraic::effect::Never>, get: Outcomes<S, S, crate::algebraic::effect::Never>)
    requires
        forall|before: S, result: Result<(), crate::algebraic::effect::Never>, after: S| #[trigger] put(before, result, after)
            <==> (result == Ok::<(), crate::algebraic::effect::Never>(()) && after == s),
        forall|before: S, result: Result<S, crate::algebraic::effect::Never>, after: S| #[trigger] get(before, result, after)
            <==> (result matches Ok(v) && cloned(before, v) && after == before),
    ensures
        forall|before: S, result: Result<S, crate::algebraic::effect::Never>, after: S| #[trigger] then_outcomes(put, get)(before, result, after)
            <==> (result matches Ok(v) && cloned(s, v) && after == s),
{
    assert forall|before: S, result: Result<S, crate::algebraic::effect::Never>, after: S| #[trigger] then_outcomes(put, get)(before, result, after)
        <==> (result matches Ok(v) && cloned(s, v) && after == s) by {
        if result matches Ok(v) && cloned(s, v) && after == s {
            assert(put(before, Ok(()), s));
            assert(get(s, result, s));
        }
        if then_outcomes(put, get)(before, result, after) {
            if exists|stop: crate::algebraic::effect::Never| #[trigger] put(before, Err(stop), after) && result == Err::<S, crate::algebraic::effect::Never>(stop) {
                let stop = choose|stop: crate::algebraic::effect::Never| #[trigger] put(before, Err(stop), after) && result == Err::<S, crate::algebraic::effect::Never>(stop);
            } else {
                let (mid, a) = choose|mid: S, a: ()| #[trigger] put(before, Ok(a), mid) && get(mid, result, after);
            }
        }
    }
}

/// State: replacing the state by `first` and then by `second` is replacing
/// it by `second`.
pub proof fn law_put_then_put<S>(first: S, second: S, put1: Outcomes<S, (), crate::algebraic::effect::Never>, put2: Outcomes<S, (), crate::algebraic::effect::Never>)
    requires
        forall|before: S, result: Result<(), crate::algebraic::effect::Never>, after: S| #[trigger] put1(before, result, after)
            <==> (result == Ok::<(), crate::algebraic::effect::Never>(()) && after == first),
        forall|before: S, result: Result<(), crate::algebraic::effect::Never>, after: S| #[trigger] put2(before, result, after)
            <==> (result == Ok::<(), crate::algebraic::effect::Never>(()) && after == second),
    ensures
        then_outcomes(put1, put2) == put2,
{
    assert forall|before: S, result: Result<(), crate::algebraic::effect::Never>, after: S| #[trigger] then_outcomes(put1, put2)(before, result, after)
        == put2(before, result, after) by {
        if put2(before, result, after) {
            assert(put1(before, Ok(()), first));
            assert(put2(first, result, after));
        }
        if then_outcomes(put1, put2)(before, result, after) {
            if exists|stop: crate::algebraic::effect::Never| #[trigger] put1(before, Err(stop), after) && result == Err::<(), crate::algebraic::effect::Never>(stop) {
                let stop = choose|stop: crate::algebraic::effect::Never| #[trigger] put1(before, Err(stop), after) && result == Err::<(), crate::algebraic::effect::Never>(stop);
            } else {
                let (mid, a) = choose|mid: S, a: ()| #[trigger] put1(before, Ok(a), mid) && put2(mid, result, after);
            }
        }
    }
    assert(then_outcomes(put1, put2) =~= put2);
}

/// State: requesting the state and putting back what came produces `()`
/// and leaves a clone of the state; where a clone is always the value
/// itself, this changes nothing, as the computation that produces `()`.
pub proof fn law_get_then_put<S: Clone>(
    get: Outcomes<S, S, crate::algebraic::effect::Never>,
    put: spec_fn(S, Outcomes<S, (), crate::algebraic::effect::Never>) -> bool,
)
    requires
        forall|before: S, result: Result<S, crate::algebraic::effect::Never>, after: S| #[trigger] get(before, result, after)
            <==> (result matches Ok(v) && cloned(before, v) && after == before),
        forall|v: S, n: Outcomes<S, (), crate::algebraic::effect::Never>| #[trigger] put(v, n) <==>
            forall|before: S, result: Result<(), crate::algebraic::effect::Never>, after: S| #[trigger] n(before, result, after)
                <==> (result == Ok::<(), crate::algebraic::effect::Never>(()) && after == v),
    ensures
        forall|before: S, result: Result<(), crate::algebraic::effect::Never>, after: S| #[trigger] bind_outcomes(get, put)(before, result, after)
            <==> (result == Ok::<(), crate::algebraic::effect::Never>(()) && cloned(before, after)),
        (forall|a: S, b: S| #[trigger] cloned(a, b) ==> a == b)
            ==> bind_outcomes(get, put) == pure_outcomes::<S, (), crate::algebraic::effect::Never>(()),
{
    assert forall|before: S, result: Result<(), crate::algebraic::effect::Never>, after: S| #[trigger] bind_outcomes(get, put)(before, result, after)
        <==> (result == Ok::<(), crate::algebraic::effect::Never>(()) && cloned(before, after)) by {
        if bind_outcomes(get, put)(before, result, after) {
            if exists|mid: S, a: S, n: Outcomes<S, (), crate::algebraic::effect::Never>|
                #[trigger] get(before, Ok(a), mid) && #[trigger] put(a, n) && n(mid, result, after) {
                let (mid, a, n) = choose|mid: S, a: S, n: Outcomes<S, (), crate::algebraic::effect::Never>|
                    #[trigger] get(before, Ok(a), mid) && #[trigger] put(a, n) && n(mid, result, after);
                assert(n(mid, result, after));
            } else {
                let stop = choose|stop: crate::algebraic::effect::Never| #[trigger] get(before, Err(stop), after)
                    && result == Err::<(), crate::algebraic::effect::Never>(stop);
            }
        }
        if result == Ok::<(), crate::algebraic::effect::Never>(()) && cloned(before, after) {
            let n = |b: S, r: Result<(), crate::algebraic::effect::Never>, a: S|
                r == Ok::<(), crate::algebraic::effect::Never>(()) && a == after;
            assert(put(after, n));
            assert(get(before, Ok(after), before));
            assert(n(before, result, after));
        }
    }
    if forall|a: S, b: S| #[trigger] cloned(a, b) ==> a == b {
        assert forall|before: S, result: Result<(), crate::algebraic::effect::Never>, after: S| #[trigger] bind_outcomes(get, put)(before, result, after)
            == pure_outcomes::<S, (), crate::algebraic::effect::Never>(())(before, result, after) by {
            if cloned(before, after) {
                assert(before == after);
            }
        }
        assert(bind_outcomes(get, put) =~= pure_outcomes::<S, (), crate::algebraic::effect::Never>(()));
    }
}

/// The outcomes of replacing the state by what a function, whose results
/// `f` relates to its arguments, makes of a clone of it.
pub open spec fn modify_outcomes<S: Clone>(f: spec_fn(S, S) -> bool) -> Outcomes<S, (), crate::algebraic::effect::Never> {
    |before: S, result: Result<(), crate::algebraic::effect::Never>, after: S|
        result == Ok::<(), crate::algebraic::effect::Never>(()) && exists|s: S| cloned(before, s) && #[trigger] f(s, after)
}

/// State: modifying by `f` and then by `g` is modifying by `f` followed by
/// `g`, each applied to a clone; where a clone is always the value itself,
/// it is modifying by the composition of `f` and `g`.
pub proof fn law_modify_composition<S: Clone>(
    f: spec_fn(S, S) -> bool,
    g: spec_fn(S, S) -> bool,
)
    ensures
        forall|before: S, result: Result<(), crate::algebraic::effect::Never>, after: S|
            #[trigger] then_outcomes(modify_outcomes(f), modify_outcomes(g))(before, result, after)
            <==> (result == Ok::<(), crate::algebraic::effect::Never>(()) && exists|s: S, mid: S, t: S|
                cloned(before, s) && #[trigger] f(s, mid) && cloned(mid, t) && #[trigger] g(t, after)),
        (forall|a: S, b: S| #[trigger] cloned(a, b) ==> a == b)
            ==> then_outcomes(modify_outcomes(f), modify_outcomes(g)) == modify_outcomes(crate::outcome::compose(f, g)),
{
    let m1 = modify_outcomes(f);
    let m2 = modify_outcomes(g);
    assert forall|before: S, result: Result<(), crate::algebraic::effect::Never>, after: S|
        #[trigger] then_outcomes(m1, m2)(before, result, after)
        <==> (result == Ok::<(), crate::algebraic::effect::Never>(()) && exists|s: S, mid: S, t: S|
            cloned(before, s) && #[trigger] f(s, mid) && cloned(mid, t) && #[trigger] g(t, after)) by {
        if then_outcomes(m1, m2)(before, result, after) {
            if exists|mid: S, a: ()| #[trigger] m1(before, Ok(a), mid) && m2(mid, result, after) {
                let (mid, a) = choose|mid: S, a: ()| #[trigger] m1(before, Ok(a), mid) && m2(mid, result, after);
                let s = choose|s: S| cloned(before, s) && #[trigger] f(s, mid);
                let t = choose|t: S| cloned(mid, t) && #[trigger] g(t, after);
                assert(cloned(before, s) && f(s, mid) && cloned(mid, t) && g(t, after));
            } else {
                let stop = choose|stop: crate::algebraic::effect::Never| #[trigger] m1(before, Err(stop), after)
                    && result == Err::<(), crate::algebraic::effect::Never>(stop);
            }
        }
        if result == Ok::<(), crate::algebraic::effect::Never>(()) && exists|s: S, mid: S, t: S|
            cloned(before, s) && #[trigger] f(s, mid) && cloned(mid, t) && #[trigger] g(t, after) {
            let (s, mid, t) = choose|s: S, mid: S, t: S|
                cloned(before, s) && #[trigger] f(s, mid) && cloned(mid, t) && #[trigger] g(t, after);
            assert(m1(before, Ok(()), mid));
            assert(m2(mid, result, after));
        }
    }
    if forall|a: S, b: S| #[trigger] cloned(a, b) ==> a == b {
        let m = modify_outcomes(crate::outcome::compose(f, g));
        assert forall|before: S, result: Result<(), crate::algebraic::effect::Never>, after: S|
            #[trigger] then_outcomes(m1, m2)(before, result, after) == m(before, result, after) by {
            if then_outcomes(m1, m2)(before, result, after) {
                let (s, mid, t) = choose|s: S, mid: S, t: S|
                    cloned(before, s) && #[trigger] f(s, mid) && cloned(mid, t) && #[trigger] g(t, after);
                assert(mid == t);
                assert(crate::outcome::compose(f, g)(s, after));
            }
            if m(before, result, after) {
                let s = choose|s: S| cloned(before, s) && #[trigger] crate::outcome::compose(f, g)(s, after);
                let mid = choose|mid: S| #[trigger] f(s, mid) && g(mid, after);
                assert(cloned(mid, mid));
                assert(cloned(before, s) && f(s, mid) && cloned(mid, mid) && g(mid, after));
            }
        }
        assert(then_outcomes(m1, m2) =~= m);
    }
}

/// Writer: appending `first` and then `second` to a log leaves the same
/// contents as appending their combination `both` at once.
pub proof fn law_tell_then_tell<W: crate::typeclass::Monoid>(
    first: W,
    second: W,
    both: W,
    tell_first: Outcomes<W, (), crate::algebraic::effect::Never>,
    tell_second: Outcomes<W, (), crate::algebraic::effect::Never>,
)
    requires
        first.combined(second, both),
        forall|before: W, result: Result<(), crate::algebraic::effect::Never>, after: W| #[trigger] tell_first(before, result, after)
            <==> (result == Ok::<(), crate::algebraic::effect::Never>(()) && before.combined(first, after)),
        forall|before: W, result: Result<(), crate::algebraic::effect::Never>, after: W| #[trigger] tell_second(before, result, after)
            <==> (result == Ok::<(), crate::algebraic::effect::Never>(()) && before.combined(second, after)),
    ensures
        forall|before: W, result: Result<(), crate::algebraic::effect::Never>, after: W, at_once: W|
            #[trigger] then_outcomes(tell_first, tell_second)(before, result, after) && #[trigger] before.combined(both, at_once)
            ==> result == Ok::<(), crate::algebraic::effect::Never>(()) && after.equiv(at_once),
{
    assert forall|before: W, result: Result<(), crate::algebraic::effect::Never>, after: W, at_once: W|
        #[trigger] then_outcomes(tell_first, tell_second)(before, result, after) && #[trigger] before.combined(both, at_once)
        implies result == Ok::<(), crate::algebraic::effect::Never>(()) && after.equiv(at_once) by {
        if exists|mid: W, a: ()| #[trigger] tell_first(before, Ok(a), mid) && tell_second(mid, result, after) {
            let (mid, a) = choose|mid: W, a: ()| #[trigger] tell_first(before, Ok(a), mid) && tell_second(mid, result, after);
            W::lemma_associative(before, first, second, mid, after, both, at_once);
        } else {
            let stop = choose|stop: crate::algebraic::effect::Never| #[trigger] tell_first(before, Err(stop), after)
                && result == Err::<(), crate::algebraic::effect::Never>(stop);
        }
    }
}

/// Writer: listening to the computation that appends `w` produces the log
/// `w` beside its value and appends `w`, as appending `w` does.
pub proof fn law_listen_tell(
    w: String,
    tell: Outcomes<String, (), crate::algebraic::effect::Never>,
    listened: Outcomes<String, ((), String), crate::algebraic::effect::Never>,
)
    requires
        forall|before: String, result: Result<(), crate::algebraic::effect::Never>, after: String| #[trigger] tell(before, result, after)
            <==> (result == Ok::<(), crate::algebraic::effect::Never>(()) && after@ == before@ + w@),
        exists|start: String, value: (), log: String, copy: String| start@ == Seq::<char>::empty()
            && #[trigger] tell(start, Ok(value), log) && #[trigger] cloned(log, copy)
            && forall|before: String, result: Result<((), String), crate::algebraic::effect::Never>, after: String|
                #[trigger] listened(before, result, after) ==> result == Ok::<((), String), crate::algebraic::effect::Never>((value, log))
                    && after@ == before@ + copy@,
    ensures
        forall|before: String, result: Result<((), String), crate::algebraic::effect::Never>, after: String|
            #[trigger] listened(before, result, after) ==> (result matches Ok(p) && p.1@ == w@) && after@ == before@ + w@,
{
    let (start, value, log, copy) = choose|start: String, value: (), log: String, copy: String| start@ == Seq::<char>::empty()
        && #[trigger] tell(start, Ok(value), log) && #[trigger] cloned(log, copy)
        && forall|before: String, result: Result<((), String), crate::algebraic::effect::Never>, after: String|
            #[trigger] listened(before, result, after) ==> result == Ok::<((), String), crate::algebraic::effect::Never>((value, log))
                && after@ == before@ + copy@;
    assert(log@ =~= w@);
    assert(copy == log);
}

/// Writer handler: a run of a computation that appends `w` gives `()` and
/// a log holding the same contents as `w`, in every log monoid.
pub proof fn law_writer_handler_tell<W: crate::typeclass::Monoid, P: Program<crate::algebraic::writer::WriterEffect<W>, ()>>(
    handler: crate::algebraic::writer::WriterHandler<W>,
    w: W,
    computation: Eff<crate::algebraic::writer::WriterEffect<W>, (), P>,
    output: ((), W),
)
    requires
        forall|before: W, result: Result<(), crate::algebraic::effect::Never>, after: W| #[trigger] computation.outcome(before, result, after)
            <==> (result == Ok::<(), crate::algebraic::effect::Never>(()) && before.combined(w, after)),
        handler.delivers(computation, output),
    ensures
        output.1.equiv(w),
{
    let start = choose|start: W| #[trigger] start.is_unit() && computation.outcome(start, Ok(output.0), output.1);
    W::lemma_unit_left(start, w, output.1);
}

/// Writer handler, for text logs: a run of a computation that appends `w`
/// gives `()` and exactly the text `w`.
pub proof fn law_writer_handler_tell_text<P: Program<crate::algebraic::writer::WriterEffect<String>, ()>>(
    handler: crate::algebraic::writer::WriterHandler<String>,
    w: String,
    computation: Eff<crate::algebraic::writer::WriterEffect<String>, (), P>,
    output: ((), String),
)
    requires
        forall|before: String, result: Result<(), crate::algebraic::effect::Never>, after: String| #[trigger] computation.outcome(before, result, after)
            <==> (result == Ok::<(), crate::algebraic::effect::Never>(()) && after@ == before@ + w@),
        handler.delivers(computation, output),
    ensures
        output.1@ == w@,
{
    let start = choose|start: String| #[trigger] start.is_unit() && computation.outcome(start, Ok(output.0), output.1);
    crate::typeclass::law_string_monoid(start, start, w, output.1);
    assert(output.1@ =~= w@);
}

/// Writer handler, for text logs: a run of a computation that holds `value`
/// and writes nothing gives `value` and the empty text.
pub proof fn law_writer_handler_pure_text<A, P: Program<crate::algebraic::writer::WriterEffect<String>, A>>(
    handler: crate::algebraic::writer::WriterHandler<String>,
    value: A,
    computation: Eff<crate::algebraic::writer::WriterEffect<String>, A, P>,
    output: (A, String),
)
    requires
        computation.holds(value),
        handler.delivers(computation, output),
    ensures
        output.0 == value,
        output.1@ == Seq::<char>::empty(),
{
    let start = choose|start: String| #[trigger] start.is_unit() && computation.outcome(start, Ok(output.0), output.1);
    crate::typeclass::law_string_monoid(start, start, start, output.1);
}

/// Handler identity for the state handler: a computation that holds `value`
/// gives `value` and the initial state.
pub proof fn law_state_handler_identity<S, A>(handler: StateHandler<S>, value: A, computation: Eff<StateEffect<S>, A, Done<A>>, output: (A, S))
    requires
        computation.program() == (Done { value }),
        handler.delivers(computation, output),
    ensures
        output == (value, handler.start()),
{
}

/// Handler identity for the reader handler: a computation that holds
/// `value` gives `value`.
pub proof fn law_reader_handler_identity<R, A>(handler: ReaderHandler<R>, value: A, computation: Eff<ReaderEffect<R>, A, Done<A>>, output: A)
    requires
        computation.program() == (Done { value }),
        handler.delivers(computation, output),
    ensures
        output == value,
{
}

/// Handler identity for the error handler: a computation that holds
/// `value` gives `Ok(value)`.
pub proof fn law_error_handler_identity<E, A>(handler: ErrorHandler<E>, value: A, computation: Eff<ErrorEffect<E>, A, Done<A>>, output: Result<A, E>)
    requires
        computation.program() == (Done { value }),
        handler.delivers(computation, output),
    ensures
        output == Ok::<A, E>(value),
{
}

/// Handler identity for the handler of computations without requests: a
/// computation that holds `value` gives `value`.
pub proof fn law_pure_handler_identity<A>(handler: PureHandler, value: A, computation: Eff<NoEffect, A, Done<A>>, output: A)
    requires
        computation.program() == (Done { value }),
        handler.delivers(computation, output),
    ensures
        output == value,
{
}

/// Injection then projection: taking back a computation that was run
/// inside a row gives the computation that was put in.
pub proof fn law_inject_project<E: Effect, I, Row: Member<E, I>, A, P: Program<E, A>>(
    original: Eff<E, A, P>,
    injected: Eff<Row, A, crate::algebraic::row::Injected<E, I, P>>,
    projected: Option<Eff<E, A, P>>,
)
    requires
        injected.program().inner == original.program(),
        projected matches Some(inner) && inner.program() == injected.program().inner,
    ensures
        projected == Some(original),
{
    crate::algebraic::eff::lemma_same_program(projected->Some_0, original);
}

} // verus!
