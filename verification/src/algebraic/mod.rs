//! Algebraic effects: computations that request operations of an effect
//! and handlers that answer them.
//!
//! A computation ([`eff::Eff`]) is built from requests of one effect and
//! the combinators of the monad; a handler runs it, answering each request
//! from the context it keeps (a state, an environment, a log) or stopping
//! the computation (an error).

pub mod effect;
pub mod eff;
pub mod handler;
pub mod state;
pub mod reader;
pub mod writer;
pub mod error;
pub mod row;
pub mod interop;
pub mod laws;
