use vstd::prelude::*;

pub mod io;
pub mod env_fn;
pub mod outcome;
pub mod reader;
pub mod except_transformer;
pub mod reader_transformer;
pub mod shared;
pub mod error;
pub mod monad_error;
pub mod monad_traits;
pub mod typeclass;
pub mod algebraic;
pub mod async_io;

verus! {
}
