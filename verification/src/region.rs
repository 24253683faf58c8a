//! Fixed-capacity slot storage that starts out vacant.

use vstd::prelude::*;

verus! {

/// Storage for a fixed number of elements, each slot either vacant or
/// occupied by a value.
///
/// A slot is written at most once while it is vacant and is read only when
/// the whole region is turned into its elements, so a vacant slot is never
/// observed as a value.
pub struct Region<T> {
    slots: Vec<Option<T>>,
}

impl<T> View for Region<T> {
    type V = Seq<Option<T>>;

    closed spec fn view(&self) -> Seq<Option<T>> {
        self.slots@
    }
}

/// The number of occupied slots among the first `upto` of `slots`.
pub open spec fn live_count<T>(slots: Seq<Option<T>>, upto: int) -> nat
    decreases upto,
{
    if upto <= 0 {
        0
    } else {
        live_count(slots, upto - 1) + if slots[upto - 1] is Some {
            1nat
        } else {
            0nat
        }
    }
}

/// A region without an occupied slot holds no live value.
pub proof fn lemma_vacant_has_no_live<T>(slots: Seq<Option<T>>, upto: int)
    requires
        upto <= slots.len(),
        forall|s: int| 0 <= s < slots.len() ==> slots[s] is None,
    ensures
        live_count(slots, upto) == 0,
    decreases upto,
{
    if upto > 0 {
        lemma_vacant_has_no_live(slots, upto - 1);
    }
}

/// The live values of a region whose occupied slots are exactly the run
/// `[start, start + count)` number `count`.
pub proof fn lemma_run_live_count<T>(slots: Seq<Option<T>>, start: int, count: int, upto: int)
    requires
        0 <= start,
        0 <= count,
        start + count <= slots.len(),
        0 <= upto <= slots.len(),
        forall|s: int| 0 <= s < slots.len() ==> (slots[s] is Some <==> start <= s < start + count),
    ensures
        live_count(slots, upto) == if upto <= start {
            0
        } else if upto <= start + count {
            upto - start
        } else {
            count
        },
    decreases upto,
{
    if upto > 0 {
        lemma_run_live_count(slots, start, count, upto - 1);
    }
}

impl<T> Region<T> {
    /// The number of slots.
    pub open spec fn capacity(&self) -> nat {
        self@.len()
    }

    /// The number of occupied slots.
    pub open spec fn live(&self) -> nat {
        live_count(self@, self@.len() as int)
    }

    /// Every slot in `[lo, hi)` is occupied.
    pub open spec fn occupied(&self, lo: int, hi: int) -> bool {
        forall|s: int| lo <= s < hi ==> (#[trigger] self@[s]) is Some
    }

    /// Every slot is vacant.
    pub open spec fn vacant(&self) -> bool {
        forall|s: int| 0 <= s < self@.len() ==> (#[trigger] self@[s]) is None
    }

    /// A region of `n` vacant slots.
    pub fn new(n: usize) -> (region: Self)
        ensures
            region.capacity() == n,
            region.vacant(),
            region.live() == 0,
    {
        let mut slots: Vec<Option<T>> = Vec::with_capacity(n);
        let mut i: usize = 0;
        while i < n
            invariant
                i <= n,
                slots@.len() == i,
                forall|s: int| 0 <= s < i ==> (#[trigger] slots@[s]) is None,
            decreases n - i,
        {
            slots.push(None);
            i += 1;
        }
        let region = Region { slots };
        proof {
            lemma_vacant_has_no_live(region@, region@.len() as int);
        }
        region
    }

    /// The number of slots.
    pub fn len(&self) -> (n: usize)
        ensures
            n == self.capacity(),
    {
        self.slots.len()
    }

    /// Whether `slot` holds a value.
    pub fn is_occupied(&self, slot: usize) -> (occupied: bool)
        requires
            slot < self.capacity(),
        ensures
            occupied == (self@[slot as int] is Some),
    {
        self.slots[slot].is_some()
    }

    /// Places `value` in the vacant slot `slot`. No other slot changes.
    pub fn write(&mut self, slot: usize, value: T)
        requires
            slot < old(self).capacity(),
            old(self)@[slot as int] is None,
        ensures
            final(self)@ == old(self)@.update(slot as int, Some(value)),
    {
        self.slots[slot] = Some(value);
    }

    /// Releases the values in the occupied run `[start, start + count)`, from
    /// the lowest slot to the highest, and reports how many were released.
    /// Each slot of the run is vacant afterwards; no slot outside it is
    /// touched.
    pub fn release(&mut self, start: usize, count: usize) -> (released: usize)
        requires
            start + count <= old(self).capacity(),
            old(self).occupied(start as int, start + count),
        ensures
            released == count,
            final(self)@.len() == old(self)@.len(),
            forall|s: int|
                0 <= s < old(self)@.len() ==> (#[trigger] final(self)@[s]) == if start <= s < start
                    + count {
                    None
                } else {
                    old(self)@[s]
                },
    {
        let n = self.slots.len();
        let mut released: usize = 0;
        while released < count
            invariant
                released <= count,
                start + count <= n == old(self)@.len(),
                self@.len() == old(self)@.len(),
                forall|s: int|
                    0 <= s < old(self)@.len() ==> (#[trigger] self@[s]) == if start <= s < start
                        + released {
                        None
                    } else {
                        old(self)@[s]
                    },
            decreases count - released,
        {
            self.slots[start + released] = None;
            released += 1;
        }
        released
    }

    /// Turns a region whose every slot is occupied into its elements, in slot
    /// order.
    pub fn into_items(self) -> (items: Vec<T>)
        requires
            self.occupied(0, self.capacity() as int),
        ensures
            items@.len() == self.capacity(),
            forall|s: int| 0 <= s < items@.len() ==> Some(#[trigger] items@[s]) == self@[s],
    {
        let n = self.slots.len();
        let mut items: Vec<T> = Vec::with_capacity(n);
        for value in it: self.slots
            invariant
                it.seq() == self@,
                self.occupied(0, self@.len() as int),
                items@.len() == it.index(),
                forall|s: int| 0 <= s < it.index() ==> Some(#[trigger] items@[s]) == self@[s],
        {
            items.push(value.unwrap());
        }
        items
    }
}

} // verus!
