use lambars::error::{AlreadyConsumedError, EffectError, EffectType};
use lambars::monad_traits::{MonadReader, MonadState, MonadWriter};
use lambars::typeclass::Monoid;

#[test]
fn effect_type_display() {
    assert_eq!(EffectType::IO.to_string(), "IO");
    assert_eq!(EffectType::AsyncIO.to_string(), "AsyncIO");
    assert_eq!(EffectType::IO == EffectType::IO, true);
    assert_eq!(EffectType::IO == EffectType::AsyncIO, false);
}

#[test]
fn already_consumed_error_display() {
    let cases = [
        ("ReaderT", "try_lift_io", EffectType::IO, "ReaderT::try_lift_io: IO already consumed. Use the transformer only once."),
        ("StateT", "try_lift_async_io", EffectType::AsyncIO, "StateT::try_lift_async_io: AsyncIO already consumed. Use the transformer only once."),
    ];
    for (transformer_name, method_name, effect_type, expected) in cases {
        let error = AlreadyConsumedError { transformer_name, method_name, effect_type };
        assert_eq!(error.to_string(), expected);
        assert_eq!(EffectError::AlreadyConsumed(error).to_string(), expected);
    }
}

#[test]
fn monad_reader_trait_compiles() {
    fn _requires_monad_reader<R, M: MonadReader<R>>() {}
}

#[test]
fn monad_state_trait_compiles() {
    fn _requires_monad_state<S, M: MonadState<S>>() {}
}

#[test]
fn monad_writer_trait_is_defined() {
    fn assert_trait_exists<M: MonadWriter<Vec<String>>>() {
        let _ = std::marker::PhantomData::<M>;
    }
    fn _type_check<M: MonadWriter<Vec<String>>>() {
        assert_trait_exists::<M>();
    }
}

#[test]
fn monad_writer_requires_monad() {
    fn assert_monad_writer<M: MonadWriter<Vec<String>>>() {
        let _ = std::marker::PhantomData::<M>;
    }
    fn _type_check<M: MonadWriter<Vec<String>>>() {
        assert_monad_writer::<M>();
    }
}

#[test]
fn monad_writer_requires_monoid_for_output() {
    fn assert_monoid<W: Monoid>() {
        let _ = std::marker::PhantomData::<W>;
    }
    fn assert_monad_writer<W: Monoid, M: MonadWriter<W>>() {
        assert_monoid::<W>();
    }
    fn _type_check<W: Monoid, M: MonadWriter<W>>() {
        assert_monad_writer::<W, M>();
    }
    assert_monoid::<String>();
}
