//! How a producer's answer is read: as a bare value, as a `Result`, or as an
//! `Option`.

use vstd::prelude::*;

verus! {

/// A way of reading what a producer hands back (`Raw`) as either a value to
/// store or a failure that ends the fill.
pub trait Mode<Raw> {
    /// The element that a successful answer carries.
    type Value;

    /// What a failed answer carries.
    type Failure;

    /// The answer read as a value or a failure.
    spec fn spec_open(raw: Raw) -> Result<Self::Value, Self::Failure>;

    /// The answer that carries `value`.
    spec fn spec_wrap(value: Self::Value) -> Raw;

    /// The answer that carries `failure`.
    spec fn spec_reject(failure: Self::Failure) -> Raw;

    /// Reads the answer.
    fn open(raw: Raw) -> (opened: Result<Self::Value, Self::Failure>)
        ensures
            opened == Self::spec_open(raw),
    ;

    /// The answer that carries a value opens to that value.
    proof fn lemma_wrap_opens(value: Self::Value)
        ensures
            Self::spec_open(Self::spec_wrap(value)) == Ok::<Self::Value, Self::Failure>(value),
    ;

    /// An answer is determined by what it opens to.
    proof fn lemma_open_inverts(raw: Raw)
        ensures
            Self::spec_open(raw) matches Ok(value) ==> raw == Self::spec_wrap(value),
            Self::spec_open(raw) matches Err(failure) ==> raw == Self::spec_reject(failure),
    ;
}

/// The failure of a producer that cannot fail. No answer opens to it.
#[derive(Clone, Copy, PartialEq, Eq, Debug, Structural)]
pub struct Unfailing;

/// The failure of a producer that had no value to give.
#[derive(Clone, Copy, PartialEq, Eq, Debug, Structural)]
pub struct Absent;

/// The producer hands back the value itself and cannot fail.
pub struct Naked;

/// The producer hands back `Ok(value)` or `Err(failure)`.
pub struct Fallible;

/// The producer hands back `Some(value)` or `None`.
pub struct Optional;

impl<T> Mode<T> for Naked {
    type Value = T;

    type Failure = Unfailing;

    open spec fn spec_open(raw: T) -> Result<T, Unfailing> {
        Ok(raw)
    }

    open spec fn spec_wrap(value: T) -> T {
        value
    }

    open spec fn spec_reject(failure: Unfailing) -> T {
        arbitrary()
    }

    fn open(raw: T) -> (opened: Result<T, Unfailing>) {
        Ok(raw)
    }

    proof fn lemma_wrap_opens(value: T) {
    }

    proof fn lemma_open_inverts(raw: T) {
    }
}

impl<T, E> Mode<Result<T, E>> for Fallible {
    type Value = T;

    type Failure = E;

    open spec fn spec_open(raw: Result<T, E>) -> Result<T, E> {
        raw
    }

    open spec fn spec_wrap(value: T) -> Result<T, E> {
        Ok(value)
    }

    open spec fn spec_reject(failure: E) -> Result<T, E> {
        Err(failure)
    }

    fn open(raw: Result<T, E>) -> (opened: Result<T, E>) {
        raw
    }

    proof fn lemma_wrap_opens(value: T) {
    }

    proof fn lemma_open_inverts(raw: Result<T, E>) {
    }
}

impl<T> Mode<Option<T>> for Optional {
    type Value = T;

    type Failure = Absent;

    open spec fn spec_open(raw: Option<T>) -> Result<T, Absent> {
        match raw {
            Some(value) => Ok(value),
            None => Err(Absent),
        }
    }

    open spec fn spec_wrap(value: T) -> Option<T> {
        Some(value)
    }

    open spec fn spec_reject(failure: Absent) -> Option<T> {
        None
    }

    fn open(raw: Option<T>) -> (opened: Result<T, Absent>) {
        match raw {
            Some(value) => Ok(value),
            None => Err(Absent),
        }
    }

    proof fn lemma_wrap_opens(value: T) {
    }

    proof fn lemma_open_inverts(raw: Option<T>) {
    }
}

} // verus!
