//! Fixed-capacity deduplication memory for frame keys.

use vstd::prelude::*;

verus! {

/// Mathematical image of the ring: the slots and the write cursor.
#[verifier::ext_equal]
pub ghost struct RingView {
    pub slots: Seq<Option<(u8, u16)>>,
    pub cursor: int,
}

impl RingView {
    /// There are `cap` slots and the cursor points at one of them.
    pub open spec fn wf(self, cap: int) -> bool {
        &&& self.slots.len() == cap
        &&& 0 <= self.cursor < cap
    }

    /// Whether any slot holds the key.
    pub open spec fn contains(self, key: (u8, u16)) -> bool {
        exists|i: int| 0 <= i < self.slots.len() && self.slots[i] == Some(key)
    }

    /// The ring after writing `key` at the cursor: the oldest slot is
    /// overwritten and the cursor advances by one, wrapping around.
    pub open spec fn push(self, key: (u8, u16)) -> RingView {
        RingView {
            slots: self.slots.update(self.cursor, Some(key)),
            cursor: (self.cursor + 1) % (self.slots.len() as int),
        }
    }
}

/// Pushing a key makes the ring contain it.
pub proof fn lemma_ring_push_contains(r: RingView, key: (u8, u16), cap: int)
    requires
        r.wf(cap),
    ensures
        r.push(key).contains(key),
{
    assert(r.push(key).slots[r.cursor] == Some(key));
}

/// Ring buffer holding the keys of recently seen frames, so that hearing
/// the same frame again does not set off another round of forwarding.
pub struct RecentSeen<const N: usize> {
    buffer: Vec<Option<(u8, u16)>>,
    cursor: usize,
}

impl<const N: usize> View for RecentSeen<N> {
    type V = RingView;

    closed spec fn view(&self) -> RingView {
        RingView { slots: self.buffer@, cursor: self.cursor as int }
    }
}

impl<const N: usize> RecentSeen<N> {
    /// The ring has exactly `N` slots and a cursor inside them.
    pub open spec fn wf(self) -> bool {
        self@.wf(N as int)
    }

    /// A ring with all slots empty and the cursor at the first slot.
    pub fn new() -> (r: Self)
        requires
            N >= 1,
        ensures
            r.wf(),
            r@.cursor == 0,
            forall|i: int| 0 <= i < N ==> r@.slots[i] is None,
    {
        let mut buffer: Vec<Option<(u8, u16)>> = Vec::new();
        let mut i: usize = 0;
        while i < N
            invariant
                i <= N,
                buffer@.len() == i,
                forall|j: int| 0 <= j < i ==> buffer@[j] is None,
            decreases N - i,
        {
            buffer.push(None);
            i = i + 1;
        }
        RecentSeen { buffer, cursor: 0 }
    }

    /// Writes `pid` (a `(source_id, packet_id)` pair) at the cursor,
    /// overwriting the oldest slot, and advances the cursor modulo `N`.
    pub fn push(&mut self, pid: (u8, u16))
        requires
            old(self).wf(),
        ensures
            final(self).wf(),
            final(self)@ == old(self)@.push(pid),
    {
        self.buffer.set(self.cursor, Some(pid));
        self.cursor = (self.cursor + 1) % N;
    }

    /// Whether any slot holds `pid`.
    pub fn contains(&self, pid: (u8, u16)) -> (r: bool)
        requires
            self.wf(),
        ensures
            r == self@.contains(pid),
    {
        let mut i: usize = 0;
        while i < self.buffer.len()
            invariant
                i <= self.buffer@.len(),
                forall|j: int| 0 <= j < i ==> self.buffer@[j] != Some(pid),
            decreases self.buffer@.len() - i,
        {
            match self.buffer[i] {
                Some(entry) => {
                    if entry.0 == pid.0 && entry.1 == pid.1 {
                        return true;
                    }
                },
                None => {},
            }
            i = i + 1;
        }
        false
    }
}

} // verus!
