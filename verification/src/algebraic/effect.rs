//! Effects: what a computation may request of its handler.

use vstd::prelude::*;

verus! {

/// The reason for stopping of an effect whose computations never stop
/// early: no value of this type can be made.
pub struct Never {
    unmade: (),
}

impl Never {
    /// No value of this type exists.
    #[verifier::type_invariant]
    pub(crate) open spec fn unmade(self) -> bool {
        false
    }

    /// A value of this type cannot exist, so code that holds one is never
    /// reached.
    pub fn absurd<A>(self) -> A {
        proof {
            use_type_invariant(&self);
        }
        vstd::pervasive::unreached()
    }
}

/// An effect: the context that its handler keeps while it runs a
/// computation, and how a computation of the effect may stop early.
pub trait Effect {
    /// What the handler keeps: a state, an environment, a log, or nothing.
    type Context;
    /// Why a computation stops before producing a value.
    type Abort;

    /// The name of the effect.
    fn name() -> &'static str;
}

/// The effect of computations that request nothing.
#[derive(Debug, Clone, Copy, PartialEq, Eq, Hash, Default)]
pub struct NoEffect;

impl Effect for NoEffect {
    type Context = ();
    type Abort = Never;

    fn name() -> (name: &'static str)
        ensures
            name@ == "NoEffect"@,
    {
        "NoEffect"
    }
}

} // verus!
