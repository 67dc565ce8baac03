# lambars

Functional effects for Rust, verified with Verus: the Reader monad and the
Reader and Except transformers, deferred computations (`IO`), error handling
for `Result` (`MonadError`), algebraic effects with handlers (state, reader,
writer, error, and rows of effects), and the decisions of asynchronous
computations (retries, back-off, pool and batch limits, blocking).

## Layout

- `src/` — the verified library. Each computation type is specified by a
  model: the relation between environments and results (`Reader`,
  `ReaderT`), the set of possible results (`IO`), or the outcome relation
  between the handler's context before, the result, and the context after
  (`algebraic::eff::Eff`). The monad, functor and effect laws are public
  proof functions over these models (`reader.rs`, `outcome.rs`,
  `algebraic/laws.rs`, `monad_error.rs`, `async_io.rs`).
  Every combinator returns a computation whose type records the types of
  its parts (`Eff<E, A, P>`, `Reader<R, A, F>`, `IO<A, F>`,
  `ReaderT<R, M, F>`), so computations are assembled with types fixed at
  compile time: a chain whose length is decided at run time, such as one
  grown by a loop, cannot be written.
- `app/` — the runtime side: `AsyncIO` and `AsyncPool` on tokio, the
  blocking bridge, console and timer actions, readers over asynchronous
  computations, and a process-wide tag counter.
- `tests/` — tests of the library.
