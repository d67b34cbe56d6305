//! Frames: fixed-capacity arenas of root slots that the garbage collector scans, and the scopes
//! nested in them.
//!
//! A frame is opened with a fixed number of slots and never grows: growing would move slots that
//! the collector is scanning. Values are rooted in the innermost open scope. A nested scope is
//! reserved inside its parent's remaining room and, when it is closed, releases every slot that
//! was rooted in it.
use vstd::prelude::*;
use crate::error::{AllocError, JlrsError};

verus! {

/// The abstract state of a frame.
pub struct FrameModel {
    /// The fixed number of slots of the frame.
    pub capacity: nat,
    /// The slots in use, oldest first. Each holds an opaque reference to a value.
    pub slots: Seq<u64>,
    /// The open scopes, outermost first: the index of the first slot of each scope and the
    /// index one past the last slot it may use.
    pub scopes: Seq<(nat, nat)>,
}

impl FrameModel {
    pub open spec fn depth(self) -> nat {
        self.scopes.len()
    }

    pub open spec fn used(self) -> nat {
        self.slots.len()
    }

    /// The innermost open scope.
    pub open spec fn top(self) -> (nat, nat) {
        self.scopes.last()
    }

    /// The number of slots that the innermost scope can still root.
    pub open spec fn room(self) -> nat {
        (self.top().1 - self.used()) as nat
    }

    /// Scopes nest strictly, each within the frame, and the slots in use lie within the
    /// innermost scope.
    pub open spec fn wf(self) -> bool {
        &&& self.used() <= self.capacity
        &&& forall|i: int|
            0 <= i < self.scopes.len() ==> #[trigger] self.scopes[i].0 <= self.scopes[i].1
                <= self.capacity
        &&& forall|i: int|
            0 < i < self.scopes.len() ==> self.scopes[i - 1].0 <= #[trigger] self.scopes[i].0
                && self.scopes[i].1 <= self.scopes[i - 1].1
        &&& self.depth() > 0 ==> self.top().0 <= self.used() <= self.top().1
        &&& self.depth() == 0 ==> self.used() == 0
        &&& self.depth() > 0 ==> self.scopes[0].0 == 0
    }
}

/// A fixed-capacity arena of root slots with a stack of nested scopes.
pub struct Frame {
    capacity: usize,
    slots: Vec<u64>,
    scopes: Vec<(usize, usize)>,
}

impl View for Frame {
    type V = FrameModel;

    closed spec fn view(&self) -> FrameModel {
        FrameModel {
            capacity: self.capacity as nat,
            slots: self.slots@,
            scopes: self.scopes@.map_values(|s: (usize, usize)| (s.0 as nat, s.1 as nat)),
        }
    }
}

impl Frame {
    pub open spec fn wf(&self) -> bool {
        self@.wf()
    }

    /// Opens a frame of `capacity` slots in a region that can supply `available` slots, with
    /// one open scope that spans the whole frame. Fails with a stack overflow when the region
    /// is too small.
    pub fn open(available: usize, capacity: usize) -> (r: Result<Frame, AllocError>)
        ensures
            capacity > available ==> r == Err::<Frame, AllocError>(
                AllocError::StackOverflow(capacity, available),
            ),
            capacity <= available ==> (r matches Ok(f) && f.wf() && f@.capacity == capacity
                && f@.slots.len() == 0 && f@.scopes == seq![(0nat, capacity as nat)]),
    {
        if capacity > available {
            return Err(AllocError::StackOverflow(capacity, available));
        }
        let mut scopes: Vec<(usize, usize)> = Vec::new();
        scopes.push((0, capacity));
        let f = Frame { capacity, slots: Vec::new(), scopes };
        proof {
            assert(f@.scopes =~= seq![(0nat, capacity as nat)]);
        }
        Ok(f)
    }

    /// The fixed number of slots of this frame.
    pub fn capacity(&self) -> (r: usize)
        ensures
            r == self@.capacity,
    {
        self.capacity
    }

    /// The number of slots in use.
    pub fn used(&self) -> (r: usize)
        ensures
            r == self@.used(),
    {
        self.slots.len()
    }

    /// The number of open scopes.
    pub fn depth(&self) -> (r: usize)
        ensures
            r == self@.depth(),
    {
        self.scopes.len()
    }

    /// The value rooted in slot `index`, if that slot is in use.
    pub fn get(&self, index: usize) -> (r: Option<u64>)
        ensures
            index < self@.used() ==> r == Some(self@.slots[index as int]),
            index >= self@.used() ==> r is None,
    {
        if index < self.slots.len() {
            Some(self.slots[index])
        } else {
            None
        }
    }

    /// The number of slots that the innermost scope can still root; zero when no scope is open.
    pub fn room(&self) -> (r: usize)
        requires
            self.wf(),
        ensures
            self@.depth() > 0 ==> r == self@.room(),
            self@.depth() == 0 ==> r == 0,
    {
        let n = self.scopes.len();
        if n == 0 {
            0
        } else {
            proof {
                assert(self@.scopes[n - 1] == (self.scopes@[n - 1].0 as nat, self.scopes@[n - 1].1 as nat));
            }
            self.scopes[n - 1].1 - self.slots.len()
        }
    }

    /// Roots `value` in the next free slot of the innermost scope and returns that slot's
    /// index. Fails when no scope is open, and with a frame overflow when the innermost scope is
    /// full; the frame is unchanged then.
    pub fn root(&mut self, value: u64) -> (r: Result<usize, JlrsError>)
        requires
            old(self).wf(),
        ensures
            final(self).wf(),
            old(self)@.depth() == 0 ==> r == Err::<usize, JlrsError>(JlrsError::NullFrame)
                && final(self)@ == old(self)@,
            old(self)@.depth() > 0 && old(self)@.room() == 0 ==> r == Err::<usize, JlrsError>(
                JlrsError::AllocError(
                    AllocError::FrameOverflow(
                        1,
                        (old(self)@.top().1 - old(self)@.top().0) as usize,
                    ),
                ),
            ) && final(self)@ == old(self)@,
            old(self)@.depth() > 0 && old(self)@.room() > 0 ==> r == Ok::<usize, JlrsError>(
                old(self)@.used() as usize,
            ) && final(self)@ == (FrameModel {
                slots: old(self)@.slots.push(value),
                ..old(self)@
            }),
    {
        let n = self.scopes.len();
        if n == 0 {
            return Err(JlrsError::NullFrame);
        }
        let (base, limit) = self.scopes[n - 1];
        proof {
            assert(self@.top() == (base as nat, limit as nat));
        }
        if self.slots.len() >= limit {
            return Err(JlrsError::AllocError(AllocError::FrameOverflow(1, limit - base)));
        }
        let index = self.slots.len();
        self.slots.push(value);
        Ok(index)
    }

    /// Opens a scope nested in the innermost one, with room for `n` slots taken from the
    /// parent's remaining room. Fails when no scope is open, and with a stack overflow when the
    /// parent has less room than `n`; the frame is unchanged then.
    pub fn reserve(&mut self, n: usize) -> (r: Result<(), JlrsError>)
        requires
            old(self).wf(),
        ensures
            final(self).wf(),
            old(self)@.depth() == 0 ==> r == Err::<(), JlrsError>(JlrsError::NullFrame)
                && final(self)@ == old(self)@,
            old(self)@.depth() > 0 && n > old(self)@.room() ==> r == Err::<(), JlrsError>(
                JlrsError::AllocError(AllocError::StackOverflow(n, old(self)@.room() as usize)),
            ) && final(self)@ == old(self)@,
            old(self)@.depth() > 0 && n <= old(self)@.room() ==> r == Ok::<(), JlrsError>(())
                && final(self)@ == (FrameModel {
                scopes: old(self)@.scopes.push((old(self)@.used(), (old(self)@.used() + n) as nat)),
                ..old(self)@
            }),
    {
        let depth = self.scopes.len();
        if depth == 0 {
            return Err(JlrsError::NullFrame);
        }
        let (_base, limit) = self.scopes[depth - 1];
        proof {
            assert(self@.top().1 == limit as nat);
        }
        let used = self.slots.len();
        let room = limit - used;
        if n > room {
            return Err(JlrsError::AllocError(AllocError::StackOverflow(n, room)));
        }
        let ghost before = self@;
        self.scopes.push((used, used + n));
        proof {
            assert(self@.scopes =~= before.scopes.push((before.used(), (before.used() + n) as nat)));
        }
        Ok(())
    }

    /// Closes the innermost scope and releases every slot that was rooted in it. The slots of
    /// the enclosing scopes keep their values.
    pub fn close(&mut self)
        requires
            old(self).wf(),
            old(self)@.depth() > 0,
        ensures
            final(self).wf(),
            final(self)@ == (FrameModel {
                slots: old(self)@.slots.take(old(self)@.top().0 as int),
                scopes: old(self)@.scopes.drop_last(),
                ..old(self)@
            }),
    {
        let ghost before = self@;
        let depth = self.scopes.len();
        let (base, _limit) = self.scopes[depth - 1];
        proof {
            assert(before.top().0 == base as nat);
        }
        self.slots.truncate(base);
        self.scopes.pop();
        proof {
            assert(self@.slots =~= before.slots.take(base as int));
            assert(self@.scopes =~= before.scopes.drop_last());
            if self@.depth() > 0 {
                assert(before.scopes[depth - 2].0 <= before.scopes[depth - 1].0);
                assert(before.scopes[depth - 1].1 <= before.scopes[depth - 2].1);
                assert(self@.top() == before.scopes[depth - 2]);
            }
        }
    }
}

/// Slot usage never exceeds the declared capacity of a frame, whatever was rooted, reserved or
/// closed before: every operation keeps a frame well formed, and a well-formed frame uses at
/// most its capacity. Rooting in a full scope is the only way to ask for more, and it fails with
/// a frame overflow.
pub proof fn lemma_usage_within_capacity(f: Frame)
    requires
        f.wf(),
    ensures
        f@.used() <= f@.capacity,
        f@.depth() > 0 ==> f@.used() + f@.room() <= f@.capacity,
{
    if f@.depth() > 0 {
        assert(f@.scopes[f@.scopes.len() - 1].1 <= f@.capacity);
    }
}

} // verus!
