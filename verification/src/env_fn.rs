//! Functions of an environment, as stored by [`crate::reader::Reader`].
//!
//! A reader keeps its environment-reading function unevaluated. Plain
//! closures serve as such functions; the combinators of `Reader` build
//! their results out of the named function types of this module, so that
//! what a composed function does can be stated in their contracts.

use vstd::prelude::*;

verus! {

/// A function from an environment of type `R` to a value of type `A`,
/// which may be called any number of times.
pub trait EnvFn<R, A> {
    /// Calling the function on `r` is allowed.
    spec fn accepts(&self, r: R) -> bool;

    /// `a` is a value the function may return for `r`.
    spec fn produces(&self, r: R, a: A) -> bool;

    /// Calls the function.
    fn run_env(&self, r: R) -> (a: A)
        requires
            self.accepts(r),
        ensures
            self.produces(r, a),
    ;
}

impl<R, A, F: Fn(R) -> A> EnvFn<R, A> for F {
    open spec fn accepts(&self, r: R) -> bool {
        self.requires((r,))
    }

    open spec fn produces(&self, r: R, a: A) -> bool {
        self.ensures((r,), a)
    }

    fn run_env(&self, r: R) -> (a: A) {
        self(r)
    }
}

/// The function type of a reader that holds a plain value and reads no
/// environment. Such a reader never calls its function, and this one
/// accepts no input.
pub struct NoFunction;

impl<R, A> EnvFn<R, A> for NoFunction {
    open spec fn accepts(&self, r: R) -> bool {
        false
    }

    open spec fn produces(&self, r: R, a: A) -> bool {
        false
    }

    fn run_env(&self, r: R) -> (a: A) {
        vstd::pervasive::unreached()
    }
}

/// The function that returns its environment unchanged.
pub struct AskFn;

impl<R> EnvFn<R, R> for AskFn {
    open spec fn accepts(&self, r: R) -> bool {
        true
    }

    open spec fn produces(&self, r: R, a: R) -> bool {
        a == r
    }

    fn run_env(&self, r: R) -> (a: R) {
        r
    }
}

/// A function of two arguments, called any number of times, as used to
/// combine the results of two readers.
pub trait Combine<A, B, C> {
    /// Calling the function on `a` and `b` is allowed.
    spec fn accepts_pair(&self, a: A, b: B) -> bool;

    /// `c` is a value the function may return for `a` and `b`.
    spec fn produces_from(&self, a: A, b: B, c: C) -> bool;

    /// Calls the function.
    fn combine(&self, a: A, b: B) -> (c: C)
        requires
            self.accepts_pair(a, b),
        ensures
            self.produces_from(a, b, c),
    ;
}

impl<A, B, C, H: Fn(A, B) -> C> Combine<A, B, C> for H {
    open spec fn accepts_pair(&self, a: A, b: B) -> bool {
        self.requires((a, b))
    }

    open spec fn produces_from(&self, a: A, b: B, c: C) -> bool {
        self.ensures((a, b), c)
    }

    fn combine(&self, a: A, b: B) -> (c: C) {
        self(a, b)
    }
}

/// Pairs its two arguments.
pub struct Pair;

impl<A, B> Combine<A, B, (A, B)> for Pair {
    open spec fn accepts_pair(&self, a: A, b: B) -> bool {
        true
    }

    open spec fn produces_from(&self, a: A, b: B, c: (A, B)) -> bool {
        c == (a, b)
    }

    fn combine(&self, a: A, b: B) -> (c: (A, B)) {
        (a, b)
    }
}

/// Applies its first argument, a function, to its second.
pub struct Apply;

impl<B, C, A: Fn(B) -> C> Combine<A, B, C> for Apply {
    open spec fn accepts_pair(&self, a: A, b: B) -> bool {
        a.requires((b,))
    }

    open spec fn produces_from(&self, a: A, b: B, c: C) -> bool {
        a.ensures((b,), c)
    }

    fn combine(&self, a: A, b: B) -> (c: C) {
        a(b)
    }
}

/// A function of three arguments, called with a pair and a third value.
pub struct Uncurry3<J> {
    /// The function of three arguments.
    pub function: J,
}

impl<A, B, C, D, J: Fn(A, B, C) -> D> Combine<(A, B), C, D> for Uncurry3<J> {
    open spec fn accepts_pair(&self, p: (A, B), c: C) -> bool {
        self.function.requires((p.0, p.1, c))
    }

    open spec fn produces_from(&self, p: (A, B), c: C, d: D) -> bool {
        self.function.ensures((p.0, p.1, c), d)
    }

    fn combine(&self, p: (A, B), c: C) -> (d: D) {
        let (a, b) = p;
        (self.function)(a, b, c)
    }
}

} // verus!
