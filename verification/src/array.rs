//! Fixed-length containers and the functions that build them element by
//! element.

use crate::direction::Direction;
use crate::engine::{fails_first_at, fill_from_sequence, fill_with, never_fails};
use crate::mode::{Fallible, Naked};
use vstd::prelude::*;
use vstd::std_specs::iter::IteratorSpec;

verus! {

/// A container of a fixed, statically known number of elements.
pub trait IsArray: Sized {
    /// The element type.
    type Item;

    /// The length of every container of this type.
    spec fn spec_len() -> usize;

    /// The elements, in index order.
    spec fn items(&self) -> Seq<Self::Item>;

    /// A container holds as many elements as its type says.
    proof fn lemma_items_len(&self)
        ensures
            self.items().len() == Self::spec_len(),
    ;

    /// The length of every container of this type.
    fn len() -> (n: usize)
        ensures
            n == Self::spec_len(),
    ;

    /// Puts `value` at `idx`. No other element changes.
    fn set(&mut self, idx: usize, value: Self::Item)
        requires
            idx < Self::spec_len(),
        ensures
            final(self).items() == old(self).items().update(idx as int, value),
    ;

    /// The container that holds `items`, in their order.
    fn assemble(items: Vec<Self::Item>) -> (array: Self)
        requires
            items@.len() == Self::spec_len(),
        ensures
            array.items() == items@,
    ;
}

/// `<[T; N] as TryFrom<Vec<T>>>::try_from`: the whole contents of the vector
/// as an array when the vector holds exactly `N` elements, and the vector
/// handed back untouched when it does not.
#[verifier::external_body]
fn vec_into_array<T, const N: usize>(items: Vec<T>) -> (out: Result<[T; N], Vec<T>>)
    ensures
        out is Ok <==> items@.len() == N,
        out matches Ok(array) ==> array@ == items@,
        out matches Err(rest) ==> rest@ == items@,
{
    items.try_into()
}

/// `core::mem::needs_drop`: whether dropping a `T` may do anything. Nothing
/// is claimed of the answer.
#[verifier::external_body]
fn needs_release<T>() -> bool {
    core::mem::needs_drop::<T>()
}

impl<T, const N: usize> IsArray for [T; N] {
    type Item = T;

    open spec fn spec_len() -> usize {
        N
    }

    open spec fn items(&self) -> Seq<T> {
        self@
    }

    proof fn lemma_items_len(&self) {
        broadcast use vstd::array::array_len_matches_n;
    }

    fn len() -> (n: usize) {
        N
    }

    fn set(&mut self, idx: usize, value: T) {
        self[idx] = value;
    }

    fn assemble(items: Vec<T>) -> (array: Self) {
        vec_into_array(items).ok().unwrap()
    }
}

/// Builds a container from `initializer`, which is called once for each
/// index, from the lowest to the highest. Element `i` is what the
/// initializer handed back for `i`.
pub fn array_init<Array, F>(initializer: F) -> (array: Array) where
    Array: IsArray,
    F: FnMut(usize) -> Array::Item,

    requires
        forall|i: usize| i < Array::spec_len() ==> call_requires(initializer, (i,)),
    ensures
        array.items().len() == Array::spec_len(),
        forall|i: int|
            0 <= i < Array::spec_len() ==> call_ensures(
                initializer,
                (i as usize,),
                #[trigger] array.items()[i],
            ),
{
    let guarded = needs_release::<Array::Item>();
    let filled = fill_with::<Array::Item, Naked, F>(
        Array::len(),
        Direction::Forward,
        guarded,
        initializer,
    );
    let array = Array::assemble(filled.ok().unwrap());
    proof {
        array.lemma_items_len();
    }
    array
}

/// Builds a container from `initializer`, which is called once for each
/// index, from the lowest to the highest, until it hands back an error.
///
/// With no error, element `i` is what the initializer handed back for `i`.
/// The first error ends the construction: the elements made so far are
/// released and the error comes back unchanged.
pub fn try_array_init<Array, E, F>(initializer: F) -> (out: Result<Array, E>) where
    Array: IsArray,
    F: FnMut(usize) -> Result<Array::Item, E>,

    requires
        forall|i: usize| i < Array::spec_len() ==> call_requires(initializer, (i,)),
    ensures
        match out {
            Ok(array) => {
                &&& array.items().len() == Array::spec_len()
                &&& forall|i: int|
                    0 <= i < Array::spec_len() ==> call_ensures(
                        initializer,
                        (i as usize,),
                        Ok::<Array::Item, E>(#[trigger] array.items()[i]),
                    )
            },
            Err(error) => exists|k: usize|
                k < Array::spec_len() && #[trigger] fails_first_at::<
                    Result<Array::Item, E>,
                    Fallible,
                    F,
                >(initializer, k, error),
        },
        never_fails::<Result<Array::Item, E>, Fallible, F>(initializer, Array::spec_len())
            ==> out is Ok,
{
    let guarded = needs_release::<Array::Item>();
    let filled = fill_with::<Result<Array::Item, E>, Fallible, F>(
        Array::len(),
        Direction::Forward,
        guarded,
        initializer,
    );
    match filled {
        Ok(items) => {
            let array = Array::assemble(items);
            proof {
                array.lemma_items_len();
            }
            Ok(array)
        },
        Err(abort) => {
            let out: Result<Array, E> = Err(abort.failure);
            assert(out matches Err(error) && fails_first_at::<Result<Array::Item, E>, Fallible, F>(
                initializer,
                abort.produced,
                error,
            ));
            out
        },
    }
}

/// Builds a container from the first items of `iter`, taking one item per
/// element and none beyond the last. Gives `None`, with the items taken so
/// far released, when the iterator ends before the container is full.
pub fn from_iter<Array, I>(iter: I) -> (out: Option<Array>) where
    Array: IsArray,
    I: Iterator<Item = Array::Item>,

    ensures
        out matches Some(array) ==> array.items().len() == Array::spec_len(),
        iter.obeys_prophetic_iter_laws() ==> {
            &&& out is Some <==> Array::spec_len() <= iter.remaining().len()
            &&& out matches Some(array) ==> array.items() == iter.remaining().take(
                Array::spec_len() as int,
            )
        },
{
    let guarded = needs_release::<Array::Item>();
    match fill_from_sequence(Array::len(), Direction::Forward, guarded, iter) {
        Ok(items) => {
            let array = Array::assemble(items);
            proof {
                array.lemma_items_len();
            }
            Some(array)
        },
        Err(_) => None,
    }
}

/// [`array_init`] for elements that are `Copy`: nothing needs releasing, so
/// no guard is kept over the elements made so far.
pub fn array_init_copy<Array, F>(initializer: F) -> (array: Array) where
    Array: IsArray,
    F: FnMut(usize) -> Array::Item,
    Array::Item: Copy,

    requires
        forall|i: usize| i < Array::spec_len() ==> call_requires(initializer, (i,)),
    ensures
        array.items().len() == Array::spec_len(),
        forall|i: int|
            0 <= i < Array::spec_len() ==> call_ensures(
                initializer,
                (i as usize,),
                #[trigger] array.items()[i],
            ),
{
    let filled = fill_with::<Array::Item, Naked, F>(
        Array::len(),
        Direction::Forward,
        false,
        initializer,
    );
    let array = Array::assemble(filled.ok().unwrap());
    proof {
        array.lemma_items_len();
    }
    array
}

/// [`try_array_init`] for elements that are `Copy`: nothing needs
/// releasing, so no guard is kept over the elements made so far.
pub fn try_array_init_copy<Array, E, F>(initializer: F) -> (out: Result<Array, E>) where
    Array: IsArray,
    F: FnMut(usize) -> Result<Array::Item, E>,
    Array::Item: Copy,

    requires
        forall|i: usize| i < Array::spec_len() ==> call_requires(initializer, (i,)),
    ensures
        match out {
            Ok(array) => {
                &&& array.items().len() == Array::spec_len()
                &&& forall|i: int|
                    0 <= i < Array::spec_len() ==> call_ensures(
                        initializer,
                        (i as usize,),
                        Ok::<Array::Item, E>(#[trigger] array.items()[i]),
                    )
            },
            Err(error) => exists|k: usize|
                k < Array::spec_len() && #[trigger] fails_first_at::<
                    Result<Array::Item, E>,
                    Fallible,
                    F,
                >(initializer, k, error),
        },
        never_fails::<Result<Array::Item, E>, Fallible, F>(initializer, Array::spec_len())
            ==> out is Ok,
{
    let filled = fill_with::<Result<Array::Item, E>, Fallible, F>(
        Array::len(),
        Direction::Forward,
        false,
        initializer,
    );
    match filled {
        Ok(items) => {
            let array = Array::assemble(items);
            proof {
                array.lemma_items_len();
            }
            Ok(array)
        },
        Err(abort) => {
            let out: Result<Array, E> = Err(abort.failure);
            assert(out matches Err(error) && fails_first_at::<Result<Array::Item, E>, Fallible, F>(
                initializer,
                abort.produced,
                error,
            ));
            out
        },
    }
}

/// [`from_iter`] for elements that are `Copy`: nothing needs releasing, so
/// no guard is kept over the items taken so far.
pub fn from_iter_copy<Array, I>(iter: I) -> (out: Option<Array>) where
    Array: IsArray,
    I: Iterator<Item = Array::Item>,
    Array::Item: Copy,

    ensures
        out matches Some(array) ==> array.items().len() == Array::spec_len(),
        iter.obeys_prophetic_iter_laws() ==> {
            &&& out is Some <==> Array::spec_len() <= iter.remaining().len()
            &&& out matches Some(array) ==> array.items() == iter.remaining().take(
                Array::spec_len() as int,
            )
        },
{
    match fill_from_sequence(Array::len(), Direction::Forward, false, iter) {
        Ok(items) => {
            let array = Array::assemble(items);
            proof {
                array.lemma_items_len();
            }
            Some(array)
        },
        Err(_) => None,
    }
}

} // verus!
