//! Sliding-window replay protection for transport counters.
//!
//! A fixed ring of slots remembers, for each residue class modulo the
//! window size, the last counter of that class that was accepted. A
//! counter is accepted exactly when it is below the protocol's counter
//! ceiling, not older than the window's floor, and not already marked.

use vstd::prelude::*;
use crate::{REJECT_AFTER_MESSAGES, REPLAY_WINDOW_SIZE};

verus! {

/// Mathematical model of a replay window: the slot ring and the highest
/// accepted counter.
pub struct ReplayModel {
    /// `slots[i] == c + 1` records that counter `c`, with `c % window == i`,
    /// was accepted; `0` records nothing.
    pub slots: Seq<u64>,
    /// The greatest counter accepted so far (zero while none has been).
    pub highest: u64,
}

impl ReplayModel {
    pub open spec fn wf(self) -> bool {
        self.slots.len() == REPLAY_WINDOW_SIZE
    }

    /// A window that has accepted nothing.
    pub open spec fn is_fresh(self) -> bool {
        &&& self.highest == 0
        &&& forall|i: int| 0 <= i < self.slots.len() ==> self.slots[i] == 0
    }

    /// The least counter the window can still tell apart from older
    /// traffic; anything below it is rejected out of hand.
    pub open spec fn floor(self) -> int {
        if self.highest >= REPLAY_WINDOW_SIZE {
            self.highest - REPLAY_WINDOW_SIZE + 1
        } else {
            0
        }
    }

    /// Whether `c` is recorded as already accepted.
    pub open spec fn marked(self, c: u64) -> bool {
        self.slots[(c % REPLAY_WINDOW_SIZE) as int] == c + 1
    }

    /// Whether `c` would be accepted: below the counter ceiling, not
    /// below the window floor, and not a replay.
    pub open spec fn accepts(self, c: u64) -> bool {
        &&& c < REJECT_AFTER_MESSAGES
        &&& c as int >= self.floor()
        &&& !self.marked(c)
    }

    /// The window after accepting `c`.
    pub open spec fn accept(self, c: u64) -> ReplayModel {
        ReplayModel {
            slots: self.slots.update((c % REPLAY_WINDOW_SIZE) as int, (c + 1) as u64),
            highest: if c > self.highest {
                c
            } else {
                self.highest
            },
        }
    }
}

/// Replay state of one key-pair: the slot ring and the highest accepted
/// counter, allocated once and updated in place.
pub struct ReplayWindow {
    slots: Vec<u64>,
    highest: u64,
}

impl View for ReplayWindow {
    type V = ReplayModel;

    closed spec fn view(&self) -> ReplayModel {
        ReplayModel { slots: self.slots@, highest: self.highest }
    }
}

impl ReplayWindow {
    pub open spec fn wf(&self) -> bool {
        self@.wf()
    }

    /// A window that has accepted nothing.
    pub fn new() -> (r: ReplayWindow)
        ensures
            r.wf(),
            r@.is_fresh(),
    {
        let mut slots: Vec<u64> = Vec::new();
        let mut i: usize = 0;
        while i < 2048
            invariant
                0 <= i <= 2048,
                slots@.len() == i,
                forall|j: int| 0 <= j < i ==> slots@[j] == 0,
            decreases 2048 - i,
        {
            slots.push(0);
            i = i + 1;
        }
        proof {
            assert(REPLAY_WINDOW_SIZE == 2048);
        }
        ReplayWindow { slots, highest: 0 }
    }

    /// Whether counter `c` would be accepted, without marking it.
    pub fn would_accept(&self, c: u64) -> (r: bool)
        requires
            self.wf(),
        ensures
            r == self@.accepts(c),
    {
        if c >= REJECT_AFTER_MESSAGES {
            return false;
        }
        if self.highest >= REPLAY_WINDOW_SIZE && c < self.highest - (REPLAY_WINDOW_SIZE - 1) {
            return false;
        }
        let idx: usize = (c % REPLAY_WINDOW_SIZE) as usize;
        self.slots[idx] != c + 1
    }

    /// Accepts or rejects counter `c`, marking it if accepted.
    pub fn check_and_update(&mut self, c: u64) -> (r: bool)
        requires
            old(self).wf(),
        ensures
            final(self).wf(),
            r == old(self)@.accepts(c),
            final(self)@ == if r {
                old(self)@.accept(c)
            } else {
                old(self)@
            },
    {
        if c >= REJECT_AFTER_MESSAGES {
            return false;
        }
        if self.highest >= REPLAY_WINDOW_SIZE && c < self.highest - (REPLAY_WINDOW_SIZE - 1) {
            return false;
        }
        let idx: usize = (c % REPLAY_WINDOW_SIZE) as usize;
        if self.slots[idx] == c + 1 {
            return false;
        }
        self.slots.set(idx, c + 1);
        if c > self.highest {
            self.highest = c;
        }
        true
    }

    /// The greatest accepted counter, zero while none has been.
    pub fn highest(&self) -> (r: u64)
        ensures
            r == self@.highest,
    {
        self.highest
    }
}

// ---------------------------------------------------------------------
// Laws of the window. Counters strictly inside one window width of a
// fresh window are each accepted exactly once, in any order, and a
// counter below the floor is never accepted.
// ---------------------------------------------------------------------

/// Law: a fresh window accepts every counter inside the first window
/// width.
pub proof fn lemma_fresh_accepts(m: ReplayModel, c: u64)
    requires
        m.wf(),
        m.is_fresh(),
        c < REPLAY_WINDOW_SIZE,
    ensures
        m.accepts(c),
{
    assert(REJECT_AFTER_MESSAGES == 0xFFFF_FFFF_FFFF_FFFFu64 - (1u64 << 13));
    assert(0xFFFF_FFFF_FFFF_FFFFu64 - (1u64 << 13) > 2048u64) by (bit_vector);
    assert(m.slots[(c % REPLAY_WINDOW_SIZE) as int] == 0);
}

/// Law: immediately after a counter is accepted, the same counter is
/// rejected as a replay.
pub proof fn lemma_no_second_acceptance(m: ReplayModel, c: u64)
    requires
        m.wf(),
        m.accepts(c),
    ensures
        !m.accept(c).accepts(c),
{
    assert(m.accept(c).marked(c));
}

/// Law: while the window has not moved past the first window width,
/// accepting one counter neither unmarks nor blocks a different one, so
/// the counters of that width can be accepted in any order.
pub proof fn lemma_order_independent(m: ReplayModel, c: u64, d: u64)
    requires
        m.wf(),
        m.highest < REPLAY_WINDOW_SIZE,
        c < REPLAY_WINDOW_SIZE,
        d < REPLAY_WINDOW_SIZE,
        c != d,
    ensures
        m.accept(d).accepts(c) == m.accepts(c),
        m.accept(d).marked(c) == m.marked(c),
{
    assert(c % REPLAY_WINDOW_SIZE == c);
    assert(d % REPLAY_WINDOW_SIZE == d);
    assert(m.accept(d).slots[c as int] == m.slots[c as int]);
    assert(m.accept(d).floor() == 0);
    assert(m.floor() == 0);
}

/// Law: a counter below the window's floor is always rejected.
pub proof fn lemma_below_floor_rejected(m: ReplayModel, c: u64)
    requires
        m.wf(),
        (c as int) < m.floor(),
    ensures
        !m.accepts(c),
{
}

} // verus!
