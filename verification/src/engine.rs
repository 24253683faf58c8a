//! The sequential fill: one value per index, written into a region slot by
//! slot, with the values written so far released when production stops
//! early.

use crate::direction::Direction;
use crate::mode::{Absent, Mode, Optional};
use crate::region::{lemma_run_live_count, Region};
use vstd::prelude::*;
use vstd::std_specs::iter::IteratorSpec;

verus! {

/// The record of the written run that is kept while elements need an
/// explicit release: the lowest slot of the run and the number of slots in
/// it. Whatever ends the fill early, exactly this run is released.
#[derive(Clone, Copy, PartialEq, Eq, Debug, Structural)]
pub struct Guard {
    /// The lowest slot of the run.
    pub base: usize,
    /// The number of slots in the run.
    pub initialized_count: usize,
}

/// A fill that stopped before every slot was written.
#[derive(Debug)]
pub struct Abort<E> {
    /// What the producer failed with, unchanged.
    pub failure: E,
    /// The index at which production stopped: the number of values produced
    /// before it.
    pub produced: usize,
    /// The number of values released by the rollback.
    pub released: usize,
}

/// A fill in progress: a region, the direction in which it is written, the
/// number of values placed so far, and the guard over the written run.
pub struct Fill<T> {
    region: Region<T>,
    direction: Direction,
    cursor: usize,
    guard: Option<Guard>,
}

impl<T> Fill<T> {
    /// The number of slots to fill.
    pub closed spec fn capacity(&self) -> nat {
        self.region.capacity()
    }

    /// The direction in which the slots are written.
    pub closed spec fn direction(&self) -> Direction {
        self.direction
    }

    /// The number of values placed so far, which is also the index that the
    /// producer is asked for next.
    pub closed spec fn produced(&self) -> nat {
        self.cursor as nat
    }

    /// The slots of the region, vacant or occupied.
    pub closed spec fn slots(&self) -> Seq<Option<T>> {
        self.region@
    }

    /// The guard over the written run, kept only where elements need an
    /// explicit release.
    pub closed spec fn guard(&self) -> Option<Guard> {
        self.guard
    }

    /// Whether the written run is under a guard.
    pub open spec fn guarded(&self) -> bool {
        self.guard() is Some
    }

    /// The values placed so far, in the order in which they were produced.
    pub open spec fn written(&self) -> Seq<T> {
        Seq::new(
            self.produced(),
            |k: int| self.slots()[self.direction().slot_of(self.capacity() as int, k)]->0,
        )
    }

    /// The number of occupied slots.
    pub open spec fn live(&self) -> nat {
        crate::region::live_count(self.slots(), self.slots().len() as int)
    }

    /// The occupied slots are exactly the written run, which is contiguous
    /// and anchored at the end of the region from which the direction
    /// starts; the guard, where there is one, describes exactly that run.
    pub open spec fn wf(&self) -> bool {
        &&& self.slots().len() == self.capacity()
        &&& self.produced() <= self.capacity()
        &&& forall|s: int|
            0 <= s < self.capacity() ==> ((#[trigger] self.slots()[s]) is Some
                <==> self.direction().in_run(
                self.capacity() as int,
                self.produced() as int,
                s,
            ))
        &&& self.guard() matches Some(guard) ==> {
            &&& guard.initialized_count == self.produced()
            &&& guard.base == self.direction().run_start(
                self.capacity() as int,
                self.produced() as int,
            )
        }
    }

    /// A fill of `n` vacant slots. With `guarded`, a guard over the (still
    /// empty) written run is armed.
    pub fn new(n: usize, direction: Direction, guarded: bool) -> (fill: Self)
        ensures
            fill.wf(),
            fill.capacity() == n,
            fill.direction() == direction,
            fill.guarded() == guarded,
            fill.produced() == 0,
            fill.written() == Seq::<T>::empty(),
            fill.live() == 0,
    {
        let region = Region::new(n);
        let guard = if guarded {
            Some(Guard { base: direction.start_of_run(n, 0), initialized_count: 0 })
        } else {
            None
        };
        let fill = Fill { region, direction, cursor: 0, guard };
        assert(fill.written() =~= Seq::<T>::empty());
        fill
    }

    /// The index to ask the producer for next: the number of values placed
    /// so far, or `None` once every slot is written.
    pub fn next_index(&self) -> (index: Option<usize>)
        ensures
            index == if self.produced() < self.capacity() {
                Some(self.produced() as usize)
            } else {
                None
            },
    {
        if self.cursor < self.region.len() {
            Some(self.cursor)
        } else {
            None
        }
    }

    /// The slot that the next value will be written to.
    pub fn next_slot(&self) -> (slot: Option<usize>)
        ensures
            slot == if self.produced() < self.capacity() {
                Some(
                    self.direction().slot_of(
                        self.capacity() as int,
                        self.produced() as int,
                    ) as usize,
                )
            } else {
                None
            },
    {
        let n = self.region.len();
        if self.cursor < n {
            Some(self.direction.slot(n, self.cursor))
        } else {
            None
        }
    }

    /// Places the value produced for the next index in its slot and extends
    /// the written run, and the guard with it, by that slot.
    pub fn accept(&mut self, value: T)
        requires
            old(self).wf(),
            old(self).produced() < old(self).capacity(),
        ensures
            final(self).wf(),
            final(self).capacity() == old(self).capacity(),
            final(self).direction() == old(self).direction(),
            final(self).guarded() == old(self).guarded(),
            final(self).produced() == old(self).produced() + 1,
            final(self).slots() == old(self).slots().update(
                old(self).direction().slot_of(
                    old(self).capacity() as int,
                    old(self).produced() as int,
                ),
                Some(value),
            ),
            final(self).written() == old(self).written().push(value),
    {
        let n = self.region.len();
        let slot = self.direction.slot(n, self.cursor);
        proof {
            self.direction.lemma_run_grows(n as int, self.cursor as int, slot as int);
        }
        self.region.write(slot, value);
        self.cursor = self.cursor + 1;
        if self.guard.is_some() {
            self.guard = Some(
                Guard {
                    base: self.direction.start_of_run(n, self.cursor),
                    initialized_count: self.cursor,
                },
            );
        }
        proof {
            let before = old(self);
            assert forall|s: int| 0 <= s < self.capacity() implies ((
            #[trigger] self.slots()[s]) is Some <==> self.direction().in_run(
                self.capacity() as int,
                self.produced() as int,
                s,
            )) by {
                before.direction.lemma_run_grows(n as int, before.cursor as int, s);
            }
            assert(self.written() =~= before.written().push(value));
        }
    }

    /// Ends the fill early. Where the run is guarded, the guard releases
    /// exactly the written run, leaving every slot vacant and the fill as it
    /// was when new; where it is not, nothing is released and the fill is
    /// left as it is, to be discarded whole. Reports the number released.
    pub fn rollback(&mut self) -> (released: usize)
        requires
            old(self).wf(),
        ensures
            final(self).wf(),
            final(self).capacity() == old(self).capacity(),
            final(self).direction() == old(self).direction(),
            final(self).guarded() == old(self).guarded(),
            old(self).guarded() ==> {
                &&& released == old(self).produced()
                &&& released == old(self).live()
                &&& final(self).produced() == 0
                &&& final(self).live() == 0
                &&& forall|s: int|
                    0 <= s < final(self).capacity() ==> (#[trigger] final(self).slots()[s]) is None
            },
            !old(self).guarded() ==> {
                &&& released == 0
                &&& final(self).produced() == old(self).produced()
                &&& final(self).slots() == old(self).slots()
            },
    {
        proof {
            self.lemma_live_is_produced();
        }
        match self.guard {
            Some(guard) => {
                let released = self.region.release(guard.base, guard.initialized_count);
                self.cursor = 0;
                self.guard = Some(
                    Guard {
                        base: self.direction.start_of_run(self.region.len(), 0),
                        initialized_count: 0,
                    },
                );
                proof {
                    self.lemma_live_is_produced();
                }
                released
            },
            None => 0,
        }
    }

    /// Ends the fill early with `failure`: rolls back and reports the
    /// failure unchanged, the index at which production stopped, and the
    /// number of values released.
    pub fn abort<E>(self, failure: E) -> (abort: Abort<E>)
        requires
            self.wf(),
        ensures
            abort.failure == failure,
            abort.produced == self.produced(),
            abort.released == if self.guarded() {
                self.produced()
            } else {
                0
            },
    {
        let mut fill = self;
        let produced = fill.cursor;
        let released = fill.rollback();
        Abort { failure, produced, released }
    }

    /// Hands over the elements of a fill whose every slot is written, in
    /// slot order. The guard is disarmed: nothing is released.
    pub fn finish(self) -> (items: Vec<T>)
        requires
            self.wf(),
            self.produced() == self.capacity(),
        ensures
            items@.len() == self.capacity(),
            items@ == self.direction().arrange(self.written()),
            forall|s: int| 0 <= s < items@.len() ==> Some(#[trigger] items@[s]) == self.slots()[s],
    {
        let ghost written = self.written();
        let ghost direction = self.direction;
        let items = self.region.into_items();
        proof {
            direction.lemma_arrange(written);
            assert(items@ =~= direction.arrange(written));
        }
        items
    }

    /// The number of slots to fill.
    pub fn len(&self) -> (n: usize)
        ensures
            n == self.capacity(),
    {
        self.region.len()
    }

    /// The number of values placed so far.
    pub fn count(&self) -> (count: usize)
        ensures
            count == self.produced(),
    {
        self.cursor
    }

    /// Whether `slot` holds a value.
    pub fn is_occupied(&self, slot: usize) -> (occupied: bool)
        requires
            self.wf(),
            slot < self.capacity(),
        ensures
            occupied == (self.slots()[slot as int] is Some),
            occupied == self.direction().in_run(
                self.capacity() as int,
                self.produced() as int,
                slot as int,
            ),
    {
        self.region.is_occupied(slot)
    }

    /// The value produced for index `k` stands in slot `slot_of(n, k)`, and
    /// no slot holds anything else: forward, the values fill a prefix of the
    /// region in production order; backward, a suffix in the opposite order.
    pub proof fn lemma_placement(&self)
        requires
            self.wf(),
        ensures
            self.written().len() == self.produced(),
            forall|k: int|
                0 <= k < self.produced() ==> self.slots()[#[trigger] self.direction().slot_of(
                    self.capacity() as int,
                    k,
                )] == Some(self.written()[k]),
            forall|s: int|
                0 <= s < self.capacity() && (#[trigger] self.slots()[s]) is Some ==> {
                    let k = self.direction().slot_of(self.capacity() as int, s);
                    0 <= k < self.produced() && self.slots()[s] == Some(self.written()[k])
                },
    {
    }

    /// A fill of no slots is complete from the start: no index is asked
    /// for, nothing is written and nothing is live.
    pub proof fn lemma_zero_length(&self)
        requires
            self.wf(),
            self.capacity() == 0,
        ensures
            self.produced() == 0,
            self.written() == Seq::<T>::empty(),
            self.live() == 0,
    {
        self.lemma_live_is_produced();
        assert(self.written() =~= Seq::<T>::empty());
    }

    /// Every value placed so far is live, and nothing else is: the number of
    /// occupied slots is the number of values produced.
    pub proof fn lemma_live_is_produced(&self)
        requires
            self.wf(),
        ensures
            self.live() == self.produced(),
    {
        lemma_run_live_count(
            self.slots(),
            self.direction().run_start(self.capacity() as int, self.produced() as int),
            self.produced() as int,
            self.slots().len() as int,
        );
    }
}

/// Each of `values` is a value that `producer` may hand back for its index:
/// `values[k]` for index `k`.
pub open spec fn produced_by<Raw, M: Mode<Raw>, F: FnMut(usize) -> Raw>(
    producer: F,
    values: Seq<M::Value>,
) -> bool {
    forall|k: int|
        0 <= k < values.len() ==> call_ensures(
            producer,
            (k as usize,),
            M::spec_wrap(#[trigger] values[k]),
        )
}

/// `producer` may answer index `k` with `failure` after having handed back
/// a value for each index below `k`.
pub open spec fn fails_first_at<Raw, M: Mode<Raw>, F: FnMut(usize) -> Raw>(
    producer: F,
    k: usize,
    failure: M::Failure,
) -> bool {
    &&& call_ensures(producer, (k,), M::spec_reject(failure))
    &&& M::spec_open(M::spec_reject(failure)) == Err::<M::Value, M::Failure>(failure)
    &&& exists|made: Seq<M::Value>|
        made.len() == k && #[trigger] produced_by::<Raw, M, F>(producer, made)
}

/// `producer` answers none of the indices below `n` with a failure.
pub open spec fn never_fails<Raw, M: Mode<Raw>, F: FnMut(usize) -> Raw>(
    producer: F,
    n: usize,
) -> bool {
    forall|i: usize, raw: Raw|
        i < n && #[trigger] call_ensures(producer, (i,), raw) ==> M::spec_open(raw) is Ok
}

/// Fills `n` slots from `producer`, asked for the indices `0, 1, ..., n - 1`
/// in that order, each answer read as `M` says.
///
/// On success the elements come back in slot order, the value for index `k`
/// in slot `direction.slot_of(n, k)`. The first answer that is a failure
/// ends the fill: the values placed before it are rolled back, and the
/// failure comes back unchanged with the index it was given for.
pub fn fill_with<Raw, M, F>(n: usize, direction: Direction, guarded: bool, producer: F) -> (out:
    Result<Vec<M::Value>, Abort<M::Failure>>) where M: Mode<Raw>, F: FnMut(usize) -> Raw
    requires
        forall|i: usize| i < n ==> call_requires(producer, (i,)),
    ensures
        match out {
            Ok(items) => {
                &&& items@.len() == n
                &&& produced_by::<Raw, M, F>(producer, direction.arrange(items@))
            },
            Err(abort) => {
                &&& abort.produced < n
                &&& fails_first_at::<Raw, M, F>(producer, abort.produced, abort.failure)
                &&& abort.released == if guarded {
                    abort.produced
                } else {
                    0
                }
            },
        },
        never_fails::<Raw, M, F>(producer, n) ==> out is Ok,
        n == 0 ==> out is Ok,
{
    let mut ask = producer;
    let mut fill: Fill<M::Value> = Fill::new(n, direction, guarded);
    loop
        invariant
            ask == producer,
            forall|i: usize| i < n ==> call_requires(producer, (i,)),
            fill.wf(),
            fill.capacity() == n,
            fill.direction() == direction,
            fill.guarded() == guarded,
            produced_by::<Raw, M, F>(producer, fill.written()),
        ensures
            fill.produced() == n,
        decreases n - fill.produced(),
    {
        match fill.next_index() {
            None => {
                break ;
            },
            Some(index) => {
                let raw = ask(index);
                proof {
                    M::lemma_open_inverts(raw);
                }
                match M::open(raw) {
                    Ok(value) => {
                        fill.accept(value);
                    },
                    Err(failure) => {
                        assert(fill.written().len() == fill.produced());
                        return Err(fill.abort(failure));
                    },
                }
            },
        }
    }
    proof {
        direction.lemma_arrange(fill.written());
    }
    Ok(fill.finish())
}

/// Fills `n` slots from the items of `source`, taken in order, one `next`
/// per slot and none after the last.
///
/// On success the elements come back in slot order, the `k`-th item in slot
/// `direction.slot_of(n, k)`. A source that ends before `n` items were taken
/// ends the fill: the items placed so far are rolled back, and the abort
/// reports how many there were.
pub fn fill_from_sequence<T, I>(n: usize, direction: Direction, guarded: bool, source: I) -> (out:
    Result<Vec<T>, Abort<Absent>>) where I: Iterator<Item = T>
    ensures
        match out {
            Ok(items) => items@.len() == n,
            Err(abort) => {
                &&& abort.produced < n
                &&& abort.released == if guarded {
                    abort.produced
                } else {
                    0
                }
            },
        },
        source.obeys_prophetic_iter_laws() ==> match out {
            Ok(items) => {
                &&& n <= source.remaining().len()
                &&& direction.arrange(items@) == source.remaining().take(n as int)
            },
            Err(abort) => {
                &&& source.remaining().len() < n
                &&& abort.produced == source.remaining().len()
            },
        },
        n == 0 ==> out is Ok,
{
    let mut items = source;
    let mut fill: Fill<T> = Fill::new(n, direction, guarded);
    loop
        invariant
            items.obeys_prophetic_iter_laws() == source.obeys_prophetic_iter_laws(),
            fill.wf(),
            fill.capacity() == n,
            fill.direction() == direction,
            fill.guarded() == guarded,
            source.obeys_prophetic_iter_laws() ==> {
                &&& fill.produced() <= source.remaining().len()
                &&& items.remaining() == source.remaining().skip(fill.produced() as int)
                &&& fill.written() == source.remaining().take(fill.produced() as int)
            },
        ensures
            fill.produced() == n,
        decreases n - fill.produced(),
    {
        match fill.next_index() {
            None => {
                break ;
            },
            Some(_index) => {
                let raw = items.next();
                match Optional::open(raw) {
                    Ok(value) => {
                        fill.accept(value);
                    },
                    Err(failure) => {
                        return Err(fill.abort(failure));
                    },
                }
            },
        }
    }
    proof {
        direction.lemma_arrange(fill.written());
    }
    Ok(fill.finish())
}

} // verus!
