//! The order in which the slots of a region are written.

use vstd::prelude::*;

verus! {

/// Where the next produced value is placed.
///
/// The producer is always asked for the indices `0, 1, ..., n - 1` in that
/// order. `Forward` places the value for index `k` in slot `k`; `Backward`
/// places it in slot `n - 1 - k`, so the slots fill from the last to the
/// first.
#[derive(Clone, Copy, PartialEq, Eq, Debug, Structural)]
pub enum Direction {
    Forward,
    Backward,
}

impl Direction {
    /// The slot that receives the `k`-th produced value in a region of `n`
    /// slots.
    pub open spec fn slot_of(self, n: int, k: int) -> int
        recommends
            0 <= k < n,
    {
        match self {
            Direction::Forward => k,
            Direction::Backward => n - 1 - k,
        }
    }

    /// The lowest slot of the written run after `count` values have been
    /// placed in a region of `n` slots.
    pub open spec fn run_start(self, n: int, count: int) -> int
        recommends
            0 <= count <= n,
    {
        match self {
            Direction::Forward => 0,
            Direction::Backward => n - count,
        }
    }

    /// Whether `slot` lies in the written run after `count` values have been
    /// placed in a region of `n` slots.
    pub open spec fn in_run(self, n: int, count: int, slot: int) -> bool {
        self.run_start(n, count) <= slot < self.run_start(n, count) + count
    }

    /// Values listed in production order, laid out in slot order (and back:
    /// the mapping is its own inverse).
    pub open spec fn arrange<T>(self, values: Seq<T>) -> Seq<T> {
        match self {
            Direction::Forward => values,
            Direction::Backward => values.reverse(),
        }
    }

    /// The slot for the `k`-th produced value.
    pub fn slot(self, n: usize, k: usize) -> (slot: usize)
        requires
            k < n,
        ensures
            slot == self.slot_of(n as int, k as int),
            slot < n,
    {
        match self {
            Direction::Forward => k,
            Direction::Backward => n - 1 - k,
        }
    }

    /// The lowest slot of the written run after `count` writes.
    pub fn start_of_run(self, n: usize, count: usize) -> (start: usize)
        requires
            count <= n,
        ensures
            start == self.run_start(n as int, count as int),
            start + count <= n,
    {
        match self {
            Direction::Forward => 0,
            Direction::Backward => n - count,
        }
    }

    /// The run is contiguous and anchored at its end of the region: a prefix
    /// when writing forward, a suffix when writing backward. It holds exactly
    /// the slots of the values produced so far.
    pub proof fn lemma_run_is_contiguous(self, n: int, count: int, slot: int)
        requires
            0 <= count <= n,
        ensures
            self.in_run(n, count, slot) <==> exists|k: int|
                0 <= k < count && #[trigger] self.slot_of(n, k) == slot,
            self == Direction::Forward ==> (self.in_run(n, count, slot) <==> 0 <= slot < count),
            self == Direction::Backward ==> (self.in_run(n, count, slot) <==> n - count <= slot
                < n),
    {
        if self.in_run(n, count, slot) {
            let k = self.slot_of(n, slot);
            assert(0 <= k < count && self.slot_of(n, k) == slot);
        }
    }

    /// Each write extends the run by exactly the slot just written.
    pub proof fn lemma_run_grows(self, n: int, count: int, slot: int)
        requires
            0 <= count < n,
        ensures
            self.in_run(n, count + 1, slot) <==> (self.in_run(n, count, slot) || slot
                == self.slot_of(n, count)),
            !self.in_run(n, count, self.slot_of(n, count)),
            0 <= self.slot_of(n, count) < n,
    {
    }

    /// Laying out twice gives the production order back, and the value for
    /// index `k` stands in slot `slot_of(n, k)`.
    pub proof fn lemma_arrange<T>(self, values: Seq<T>)
        ensures
            self.arrange(values).len() == values.len(),
            self.arrange(self.arrange(values)) == values,
            forall|k: int|
                0 <= k < values.len() ==> #[trigger] self.arrange(values)[self.slot_of(
                    values.len() as int,
                    k,
                )] == values[k],
    {
        assert(self.arrange(self.arrange(values)) =~= values);
    }
}

} // verus!
