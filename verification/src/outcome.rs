//! Sets of possible results and relations between values, the model in
//! which the deferred computations of this crate are specified.
//!
//! Of a closure handed to a combinator, contracts know only what its
//! `ensures` promises, which may allow several results. A
//! computation is therefore described by the set of results it may
//! produce (`spec_fn(A) -> bool`), and a function argument by the relation
//! between its inputs and its possible outputs.

use vstd::prelude::*;

verus! {

/// The set holding exactly `v`.
pub open spec fn single<A>(v: A) -> spec_fn(A) -> bool {
    |a: A| a == v
}

/// Everything that `r` relates to some member of `s`.
pub open spec fn image<A, B>(s: spec_fn(A) -> bool, r: spec_fn(A, B) -> bool) -> spec_fn(B) -> bool {
    |b: B| exists|a: A| #[trigger] s(a) && r(a, b)
}

/// Sequencing: the results of a continuation `k`, chosen by relation from
/// each member of `s`, collected together.
pub open spec fn bind<A, B>(
    s: spec_fn(A) -> bool,
    k: spec_fn(A, spec_fn(B) -> bool) -> bool,
) -> spec_fn(B) -> bool {
    |b: B| exists|a: A, t: spec_fn(B) -> bool| #[trigger] s(a) && #[trigger] k(a, t) && t(b)
}

/// Every member of `s` is a member of `t`.
pub open spec fn within<A>(s: spec_fn(A) -> bool, t: spec_fn(A) -> bool) -> bool {
    forall|a: A| #[trigger] s(a) ==> t(a)
}

/// Relational composition: `f` followed by `g`.
pub open spec fn compose<A, B, C>(f: spec_fn(A, B) -> bool, g: spec_fn(B, C) -> bool) -> spec_fn(A, C) -> bool {
    |a: A, c: C| exists|b: B| #[trigger] f(a, b) && g(b, c)
}

/// `r` relates each input only to itself.
pub open spec fn is_identity<A>(r: spec_fn(A, A) -> bool) -> bool {
    forall|a: A, b: A| #[trigger] r(a, b) ==> a == b
}

} // verus!

verus! {

/// The relation between inputs and outputs that a one-shot function promises.
pub open spec fn once_rel<A, B, G: FnOnce(A) -> B>(g: G) -> spec_fn(A, B) -> bool {
    |a: A, b: B| g.ensures((a,), b)
}

/// The relation between inputs and outputs that a reusable function promises.
pub open spec fn fn_rel<A, B, G: Fn(A) -> B>(g: G) -> spec_fn(A, B) -> bool {
    |a: A, b: B| g.ensures((a,), b)
}

} // verus!

verus! {

/// Functor identity for deferred computations: mapping the results by a
/// function that returns its argument adds no result.
pub proof fn law_image_identity<A>(s: spec_fn(A) -> bool, id: spec_fn(A, A) -> bool)
    requires
        is_identity(id),
    ensures
        within(image(s, id), s),
{
    assert forall|b: A| #[trigger] image(s, id)(b) implies s(b) by {
        let a = choose|a: A| #[trigger] s(a) && id(a, b);
    }
}

/// Functor composition for deferred computations: mapping by `f` and then
/// by `g` is mapping by their composition.
pub proof fn law_image_composition<A, B, C>(s: spec_fn(A) -> bool, f: spec_fn(A, B) -> bool, g: spec_fn(B, C) -> bool)
    ensures
        image(image(s, f), g) == image(s, compose(f, g)),
{
    assert forall|c: C| #[trigger] image(image(s, f), g)(c) == image(s, compose(f, g))(c) by {
        if image(image(s, f), g)(c) {
            let b = choose|b: B| #[trigger] image(s, f)(b) && g(b, c);
            let a = choose|a: A| #[trigger] s(a) && f(a, b);
            assert(compose(f, g)(a, c));
        }
        if image(s, compose(f, g))(c) {
            let a = choose|a: A| #[trigger] s(a) && compose(f, g)(a, c);
            let b = choose|b: B| #[trigger] f(a, b) && g(b, c);
            assert(image(s, f)(b));
        }
    }
    assert(image(image(s, f), g) =~= image(s, compose(f, g)));
}

/// Monad left identity for deferred computations: sequencing a computation
/// that produces `v` with `k` gives the results of what `k` chooses for `v`.
pub proof fn law_bind_left_identity<A, B>(v: A, k: spec_fn(A, spec_fn(B) -> bool) -> bool)
    ensures
        bind(single(v), k) == (|b: B| exists|t: spec_fn(B) -> bool| #[trigger] k(v, t) && t(b)),
{
    let rhs = |b: B| exists|t: spec_fn(B) -> bool| #[trigger] k(v, t) && t(b);
    assert forall|b: B| #[trigger] bind(single(v), k)(b) == rhs(b) by {
        if rhs(b) {
            let t = choose|t: spec_fn(B) -> bool| #[trigger] k(v, t) && t(b);
            assert(single(v)(v) && k(v, t) && t(b));
        }
    }
    assert(bind(single(v), k) =~= rhs);
}

/// Monad right identity for deferred computations: sequencing with the
/// continuation that produces its argument changes nothing.
pub proof fn law_bind_right_identity<A>(s: spec_fn(A) -> bool)
    ensures
        bind(s, |a: A, t: spec_fn(A) -> bool| t == single(a)) == s,
{
    let k = |a: A, t: spec_fn(A) -> bool| t == single(a);
    assert forall|a: A| #[trigger] bind(s, k)(a) == s(a) by {
        if s(a) {
            assert(s(a) && k(a, single(a)) && single(a)(a));
        }
    }
    assert(bind(s, k) =~= s);
}

/// Monad associativity for deferred computations: sequencing with `f` and
/// then with `g` is sequencing with "`f`, then `g`".
pub proof fn law_bind_associativity<A, B, C>(
    s: spec_fn(A) -> bool,
    f: spec_fn(A, spec_fn(B) -> bool) -> bool,
    g: spec_fn(B, spec_fn(C) -> bool) -> bool,
)
    ensures
        bind(bind(s, f), g) == bind(
            s,
            |a: A, t: spec_fn(C) -> bool| exists|u: spec_fn(B) -> bool| #[trigger] f(a, u) && t == bind(u, g),
        ),
{
    let k = |a: A, t: spec_fn(C) -> bool| exists|u: spec_fn(B) -> bool| #[trigger] f(a, u) && t == bind(u, g);
    assert forall|c: C| #[trigger] bind(bind(s, f), g)(c) == bind(s, k)(c) by {
        if bind(bind(s, f), g)(c) {
            let (b, t) = choose|b: B, t: spec_fn(C) -> bool| #[trigger] bind(s, f)(b) && #[trigger] g(b, t) && t(c);
            let (a, u) = choose|a: A, u: spec_fn(B) -> bool| #[trigger] s(a) && #[trigger] f(a, u) && u(b);
            assert(bind(u, g)(c));
            assert(k(a, bind(u, g)));
        }
        if bind(s, k)(c) {
            let (a, t) = choose|a: A, t: spec_fn(C) -> bool| #[trigger] s(a) && #[trigger] k(a, t) && t(c);
            let u = choose|u: spec_fn(B) -> bool| #[trigger] f(a, u) && t == bind(u, g);
            let (b, t2) = choose|b: B, t2: spec_fn(C) -> bool| #[trigger] u(b) && #[trigger] g(b, t2) && t2(c);
            assert(bind(s, f)(b));
        }
    }
    assert(bind(bind(s, f), g) =~= bind(s, k));
}

} // verus!
