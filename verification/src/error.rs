//! Errors of the effect types.

use vstd::prelude::*;
use vstd::string::StringExecFns;

verus! {

/// The kind of effect that a transformer wraps.
#[derive(Debug, Clone, Copy, PartialEq, Eq, Structural)]
pub enum EffectType {
    /// A synchronous computation.
    IO,
    /// An asynchronous computation.
    AsyncIO,
}

/// The name of an effect type, as it appears in messages.
pub open spec fn effect_type_name(effect_type: EffectType) -> Seq<char> {
    match effect_type {
        EffectType::IO => "IO"@,
        EffectType::AsyncIO => "AsyncIO"@,
    }
}

impl EffectType {
    /// The name of the effect type: `IO` or `AsyncIO`.
    pub fn to_string(&self) -> (text: String)
        ensures
            text@ == effect_type_name(*self),
    {
        match self {
            EffectType::IO => String::from_str("IO"),
            EffectType::AsyncIO => String::from_str("AsyncIO"),
        }
    }
}

/// A transformer was asked to run an effect that it had already run.
#[derive(Debug, Clone, PartialEq, Eq)]
pub struct AlreadyConsumedError {
    /// The transformer, such as `ReaderT`.
    pub transformer_name: &'static str,
    /// The method that found the effect consumed.
    pub method_name: &'static str,
    /// The kind of effect.
    pub effect_type: EffectType,
}

/// The message of an [`AlreadyConsumedError`].
pub open spec fn already_consumed_message(transformer: Seq<char>, method: Seq<char>, effect_type: EffectType) -> Seq<char> {
    transformer + "::"@ + method + ": "@ + effect_type_name(effect_type) + " already consumed. Use the transformer only once."@
}

impl AlreadyConsumedError {
    /// The message: `{transformer}::{method}: {effect} already consumed.
    /// Use the transformer only once.`
    pub fn to_string(&self) -> (text: String)
        ensures
            text@ == already_consumed_message(self.transformer_name@, self.method_name@, self.effect_type),
    {
        let mut text = String::from_str(self.transformer_name);
        text.append("::");
        text.append(self.method_name);
        text.append(": ");
        match self.effect_type {
            EffectType::IO => text.append("IO"),
            EffectType::AsyncIO => text.append("AsyncIO"),
        }
        text.append(" already consumed. Use the transformer only once.");
        text
    }
}

/// The errors of the effect types.
#[derive(Debug, Clone, PartialEq, Eq)]
pub enum EffectError {
    /// An effect was run twice.
    AlreadyConsumed(AlreadyConsumedError),
}

impl EffectError {
    /// The message of the error.
    pub fn to_string(&self) -> (text: String)
        ensures
            match self {
                EffectError::AlreadyConsumed(e) =>
                    text@ == already_consumed_message(e.transformer_name@, e.method_name@, e.effect_type),
            },
    {
        match self {
            EffectError::AlreadyConsumed(e) => e.to_string(),
        }
    }
}

} // verus!
