//! Sequencing for `Option` and `Result`, the operation that do-notation
//! chains are built from, and monoids, the logs that a writer accumulates.
//!
//! A chain `x <= m; rest` is written `m.flat_map(move |x| rest)`: a present
//! value or a success is handed to the continuation, an absent value or an
//! error stops the chain.

use vstd::prelude::*;
use vstd::string::StringExecFns;

verus! {

/// Computations that can hand their value to a continuation producing a
/// computation of type `MB`.
pub trait Monad<MB>: Sized {
    /// The type of the value handed on.
    type Value;

    /// The computation holds `a`, which is handed on.
    spec fn holds(&self, a: Self::Value) -> bool;

    /// What the chain gives when the computation holds no value.
    spec fn stopped_at(&self, mb: MB) -> bool;

    /// Hands the held value to `function` and returns what it returns; a
    /// computation that holds no value stops the chain.
    fn flat_map<F: FnOnce(Self::Value) -> MB>(self, function: F) -> (result: MB)
        requires
            forall|a: Self::Value| #[trigger] self.holds(a) ==> function.requires((a,)),
        ensures
            forall|a: Self::Value| #[trigger] self.holds(a) ==> function.ensures((a,), result),
            (forall|a: Self::Value| !#[trigger] self.holds(a)) ==> self.stopped_at(result),
    ;
}

impl<A, B> Monad<Option<B>> for Option<A> {
    type Value = A;

    open spec fn holds(&self, a: A) -> bool {
        *self == Some(a)
    }

    open spec fn stopped_at(&self, mb: Option<B>) -> bool {
        mb is None
    }

    fn flat_map<F: FnOnce(A) -> Option<B>>(self, function: F) -> (result: Option<B>) {
        match self {
            Some(a) => {
                assert(<Option<A> as Monad<Option<B>>>::holds(&self, a));
                function(a)
            },
            None => None,
        }
    }
}

impl<A, B, E> Monad<Result<B, E>> for Result<A, E> {
    type Value = A;

    open spec fn holds(&self, a: A) -> bool {
        *self == Ok::<A, E>(a)
    }

    open spec fn stopped_at(&self, mb: Result<B, E>) -> bool {
        *self matches Err(e) && mb == Err::<B, E>(e)
    }

    fn flat_map<F: FnOnce(A) -> Result<B, E>>(self, function: F) -> (result: Result<B, E>) {
        match self {
            Ok(a) => {
                assert(<Result<A, E> as Monad<Result<B, E>>>::holds(&self, a));
                function(a)
            },
            Err(e) => Err(e),
        }
    }
}

/// Values with an associative combination and a neutral element.
pub trait Monoid: Sized {
    /// The value is the neutral element.
    spec fn is_unit(self) -> bool;

    /// `result` is `self` combined with `other`, in that order.
    spec fn combined(self, other: Self, result: Self) -> bool;

    /// The two values hold the same contents.
    spec fn equiv(self, other: Self) -> bool;

    /// Combining is associative: `(a · b) · c` and `a · (b · c)` hold the
    /// same contents.
    proof fn lemma_associative(a: Self, b: Self, c: Self, ab: Self, abc: Self, bc: Self, a_bc: Self)
        requires
            a.combined(b, ab),
            ab.combined(c, abc),
            b.combined(c, bc),
            a.combined(bc, a_bc),
        ensures
            abc.equiv(a_bc),
    ;

    /// The neutral element changes nothing in front of a value.
    proof fn lemma_unit_left(unit: Self, x: Self, left: Self)
        requires
            unit.is_unit(),
            unit.combined(x, left),
        ensures
            left.equiv(x),
    ;

    /// The neutral element changes nothing, on either side.
    proof fn lemma_unit(unit: Self, x: Self, left: Self, right: Self)
        requires
            unit.is_unit(),
            unit.combined(x, left),
            x.combined(unit, right),
        ensures
            left.equiv(x),
            right.equiv(x),
    ;

    /// The neutral element.
    fn empty() -> (unit: Self)
        ensures
            unit.is_unit(),
    ;

    /// Combines `self` with `other`, in that order.
    fn combine(self, other: Self) -> (result: Self)
        ensures
            self.combined(other, result),
    ;
}

impl Monoid for String {
    open spec fn is_unit(self) -> bool {
        self@ == Seq::<char>::empty()
    }

    open spec fn combined(self, other: Self, result: Self) -> bool {
        result@ == self@ + other@
    }

    open spec fn equiv(self, other: Self) -> bool {
        self@ == other@
    }

    proof fn lemma_associative(a: Self, b: Self, c: Self, ab: Self, abc: Self, bc: Self, a_bc: Self) {
        assert(abc@ =~= a_bc@);
    }

    proof fn lemma_unit_left(unit: Self, x: Self, left: Self) {
        assert(left@ =~= x@);
    }

    proof fn lemma_unit(unit: Self, x: Self, left: Self, right: Self) {
        assert(left@ =~= x@);
        assert(right@ =~= x@);
    }

    fn empty() -> (unit: Self)
        ensures
            unit@ == Seq::<char>::empty(),
    {
        String::new()
    }

    fn combine(self, other: Self) -> (result: Self)
        ensures
            result@ == self@ + other@,
    {
        let mut result = self;
        result.append(other.as_str());
        result
    }
}

impl<T> Monoid for Vec<T> {
    open spec fn is_unit(self) -> bool {
        self@ == Seq::<T>::empty()
    }

    open spec fn combined(self, other: Self, result: Self) -> bool {
        result@ == self@ + other@
    }

    open spec fn equiv(self, other: Self) -> bool {
        self@ == other@
    }

    proof fn lemma_associative(a: Self, b: Self, c: Self, ab: Self, abc: Self, bc: Self, a_bc: Self) {
        assert(abc@ =~= a_bc@);
    }

    proof fn lemma_unit_left(unit: Self, x: Self, left: Self) {
        assert(left@ =~= x@);
    }

    proof fn lemma_unit(unit: Self, x: Self, left: Self, right: Self) {
        assert(left@ =~= x@);
        assert(right@ =~= x@);
    }

    fn empty() -> (unit: Self)
        ensures
            unit@ == Seq::<T>::empty(),
    {
        Vec::new()
    }

    fn combine(self, other: Self) -> (result: Self)
        ensures
            result@ == self@ + other@,
    {
        let mut result = self;
        let mut rest = other;
        result.append(&mut rest);
        result
    }
}

/// The text monoid: its neutral element is the empty text, and combining
/// two texts writes the first and then the second.
pub proof fn law_string_monoid(unit: String, first: String, second: String, result: String)
    ensures
        unit.is_unit() <==> unit@ == Seq::<char>::empty(),
        first.combined(second, result) <==> result@ == first@ + second@,
        unit.is_unit() ==> (first.combined(unit, result) <==> result@ == first@),
        unit.is_unit() ==> (unit.combined(second, result) <==> result@ == second@),
{
    if unit.is_unit() {
        assert(first@ + unit@ =~= first@);
        assert(unit@ + second@ =~= second@);
    }
}

/// The list monoid: its neutral element is the empty list, and combining
/// two lists gives the items of the first followed by those of the second.
pub proof fn law_vec_monoid<T>(unit: Vec<T>, first: Vec<T>, second: Vec<T>, result: Vec<T>)
    ensures
        unit.is_unit() <==> unit@ == Seq::<T>::empty(),
        first.combined(second, result) <==> result@ == first@ + second@,
        unit.is_unit() ==> (first.combined(unit, result) <==> result@ == first@),
        unit.is_unit() ==> (unit.combined(second, result) <==> result@ == second@),
{
    if unit.is_unit() {
        assert(first@ + unit@ =~= first@);
        assert(unit@ + second@ =~= second@);
    }
}

} // verus!
