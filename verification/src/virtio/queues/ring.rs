//! Bookkeeping for the positions of the available ring.

use vstd::prelude::*;

verus! {

/// A ring of `capacity` positions, of which the `len` positions from `start`
/// on are taken, wrapping round at `capacity`.
pub struct RingView {
    pub capacity: nat,
    pub start: nat,
    pub len: nat,
}

impl RingView {
    /// The positions in use lie within the ring.
    pub open spec fn wf(self) -> bool {
        &&& self.len <= self.capacity
        &&& self.start < self.capacity || self.start == 0
    }

    /// The position `n` places after `start`.
    pub open spec fn position(self, n: nat) -> nat {
        if self.start + n >= self.capacity {
            (self.start + n - self.capacity) as nat
        } else {
            self.start + n
        }
    }

    /// The position that the next insertion takes.
    pub open spec fn end(self) -> nat {
        self.position(self.len)
    }

    /// Every position is taken. A ring without positions is never full.
    pub open spec fn full(self) -> bool {
        self.len > 0 && self.len == self.capacity
    }

    /// An insertion finds the ring full, or its successor position exists and
    /// is representable as a 16 bit index.
    pub open spec fn insertable(self) -> bool {
        self.full() || (self.capacity > 0 && (self.end() + 1 == self.capacity || self.end()
            < u16::MAX))
    }

    /// The ring after the position at the end was taken.
    pub open spec fn inserted(self) -> RingView {
        RingView { len: self.len + 1, ..self }
    }

    /// The ring after the position at the start was given back; an empty ring
    /// stays as it is.
    pub open spec fn popped(self) -> RingView {
        if self.len == 0 {
            self
        } else {
            RingView { start: self.position(1), len: (self.len - 1) as nat, ..self }
        }
    }

    /// The ring after `n` positions were given back.
    pub open spec fn popped_n(self, n: nat) -> RingView
        decreases n,
    {
        if n == 0 {
            self
        } else {
            self.popped_n((n - 1) as nat).popped()
        }
    }

    /// The ring after `n` positions were taken.
    pub open spec fn inserted_n(self, n: nat) -> RingView {
        RingView { len: self.len + n, ..self }
    }
}

/// Tracks which positions of the available ring hold a chain that the device
/// has not returned yet.
pub struct AvailableRingHandler {
    max_elements: usize,
    start: u16,
    end: u16,
    empty: bool,
}

impl View for AvailableRingHandler {
    type V = RingView;

    closed spec fn view(&self) -> RingView {
        RingView {
            capacity: self.max_elements as nat,
            start: self.start as nat,
            len: if self.empty {
                0
            } else if self.end > self.start {
                (self.end - self.start) as nat
            } else {
                (self.max_elements - self.start + self.end) as nat
            },
        }
    }
}

impl AvailableRingHandler {
    /// Both ends lie within the ring, and they meet when nothing is taken.
    /// Beyond what 16 bit positions can index the ring never wraps.
    pub closed spec fn wf(&self) -> bool {
        if self.max_elements == 0 {
            self.start == 0 && self.end == 0 && self.empty
        } else {
            &&& self.start < self.max_elements
            &&& self.end < self.max_elements
            &&& self.empty ==> self.start == self.end
            &&& self.max_elements > u16::MAX + 1 ==> self.empty || self.start < self.end
        }
    }

    /// An empty ring of `max_elements` positions.
    pub fn new(max_elements: usize) -> (ring: AvailableRingHandler)
        ensures
            ring.wf(),
            ring@ == (RingView { capacity: max_elements as nat, start: 0, len: 0 }),
    {
        AvailableRingHandler { max_elements, start: 0, end: 0, empty: true }
    }

    fn ring_wrapping_add(&self, a: u16, b: u16) -> (sum: u16)
        requires
            a < self.max_elements,
            a + b < self.max_elements ==> a + b <= u16::MAX,
        ensures
            sum == if a + b >= self.max_elements {
                a + b - self.max_elements
            } else {
                a + b
            },
    {
        if self.max_elements - (a as usize) - 1 < (b as usize) {
            b - (self.max_elements - a as usize) as u16
        } else {
            a + b
        }
    }

    /// Forgets every position and changes the size of the ring.
    pub fn reset(&mut self, max_elements: usize)
        ensures
            final(self).wf(),
            final(self)@ == (RingView { capacity: max_elements as nat, start: 0, len: 0 }),
    {
        self.max_elements = max_elements;
        self.start = 0;
        self.end = 0;
        self.empty = true;
    }

    /// Whether no position is taken.
    pub fn is_empty(&self) -> (empty: bool)
        requires
            self.wf(),
        ensures
            empty == (self@.len == 0),
    {
        self.empty
    }

    /// Whether no position is left to take.
    pub fn is_full(&self) -> (full: bool)
        requires
            self.wf(),
        ensures
            full == self@.full(),
    {
        !self.empty && self.start == self.end
    }

    /// Takes the next position of the ring, if there is one left.
    pub fn insert(&mut self) -> (pos: Option<u16>)
        requires
            old(self).wf(),
            old(self)@.insertable(),
        ensures
            final(self).wf(),
            final(self)@.wf(),
            old(self)@.full() ==> pos is None && final(self)@ == old(self)@,
            !old(self)@.full() ==> {
                &&& pos is Some
                &&& pos->0 == old(self)@.end()
                &&& pos->0 < old(self)@.capacity
                &&& final(self)@ == old(self)@.inserted()
            },
    {
        if !self.is_full() {
            let pos: u16 = self.end;
            self.end = self.ring_wrapping_add(pos, 1);
            self.empty = false;
            Some(pos)
        } else {
            None
        }
    }

    /// Gives back the position that was taken first.
    pub fn pop(&mut self) -> (pos: Option<u16>)
        requires
            old(self).wf(),
        ensures
            final(self).wf(),
            final(self)@.wf(),
            final(self)@ == old(self)@.popped(),
            old(self)@.len == 0 ==> pos is None,
            old(self)@.len > 0 ==> pos is Some && pos->0 == old(self)@.start,
    {
        if !self.is_empty() {
            let pos: u16 = self.start;
            self.start = self.ring_wrapping_add(pos, 1);
            if self.start == self.end {
                self.empty = true;
            }
            Some(pos)
        } else {
            None
        }
    }

    /// The position that [`AvailableRingHandler::pop`] would give back next.
    pub fn next_index(&self) -> (pos: u16)
        ensures
            pos == self@.start,
    {
        self.start
    }

    /// A well-formed handler describes a well-formed ring.
    pub proof fn lemma_view_wf(&self)
        requires
            self.wf(),
        ensures
            self@.wf(),
    {
    }
}

proof fn lemma_popped_n(ring: RingView, n: nat)
    requires
        ring.wf(),
        n <= ring.len,
    ensures
        ring.popped_n(n).wf(),
        ring.popped_n(n).capacity == ring.capacity,
        ring.popped_n(n).len == ring.len - n,
        n < ring.capacity ==> ring.popped_n(n).start == ring.position(n),
    decreases n,
{
    if n > 0 {
        lemma_popped_n(ring, (n - 1) as nat);
    }
}

/// Positions come back in the order in which they were taken: once what was
/// taken before it has been given back, the next position given back is the
/// one that this insertion took.
pub proof fn law_ring_is_first_in_first_out(ring: RingView)
    requires
        ring.wf(),
        ring.len < ring.capacity,
    ensures
        ring.inserted().popped_n(ring.len).len == 1,
        ring.inserted().popped_n(ring.len).start == ring.end(),
{
    lemma_popped_n(ring.inserted(), ring.len);
}

/// No position is handed out twice while it is taken: the next one to be
/// taken differs from all that are.
pub proof fn law_ring_positions_are_distinct(ring: RingView, n: nat)
    requires
        ring.wf(),
        ring.len < ring.capacity,
        n < ring.len,
    ensures
        ring.position(n) < ring.capacity,
        ring.end() < ring.capacity,
        ring.position(n) != ring.end(),
{
}

/// An empty ring takes exactly `capacity` insertions before it is full.
pub proof fn law_ring_fills_after_capacity_insertions(ring: RingView, n: nat)
    requires
        ring.wf(),
        ring.len == 0,
        n <= ring.capacity,
    ensures
        ring.inserted_n(n).wf(),
        ring.inserted_n(n).full() <==> n == ring.capacity && n > 0,
        n > 0 ==> ring.inserted_n(n) == ring.inserted_n((n - 1) as nat).inserted(),
{
}

/// Positions are counted modulo the capacity: the next insertion takes the
/// position as many places after the start as are taken, and giving one back
/// moves the start on by one place. A ring is full when as many positions are
/// taken as there are, and takes insertions as long as 16 bits can index it.
pub proof fn law_ring_wraps_at_its_capacity(ring: RingView, n: nat)
    requires
        ring.wf(),
        ring.capacity > 0,
        n <= ring.capacity,
    ensures
        ring.position(n) == (ring.start + n) % ring.capacity,
        ring.end() == (ring.start + ring.len) % ring.capacity,
        ring.end() < ring.capacity,
        ring.full() <==> ring.len == ring.capacity,
        ring.inserted() == (RingView {
            capacity: ring.capacity,
            start: ring.start,
            len: ring.len + 1,
        }),
        ring.len > 0 ==> ring.popped() == (RingView {
            capacity: ring.capacity,
            start: (ring.start + 1) % ring.capacity,
            len: (ring.len - 1) as nat,
        }),
        ring.len == 0 ==> ring.popped() == ring,
        ring.capacity <= 0x1_0000 ==> ring.insertable(),
{
    lemma_wraps_once(ring.start + n, ring.capacity);
    lemma_wraps_once(ring.start + ring.len, ring.capacity);
    lemma_wraps_once(ring.start + 1, ring.capacity);
}

proof fn lemma_wraps_once(a: nat, capacity: nat)
    requires
        capacity > 0,
        a < 2 * capacity,
    ensures
        a % capacity == if a >= capacity {
            a - capacity
        } else {
            a as int
        },
{
    if a >= capacity {
        vstd::arithmetic::div_mod::lemma_fundamental_div_mod_converse(
            a as int,
            capacity as int,
            1,
            a - capacity,
        );
    } else {
        vstd::arithmetic::div_mod::lemma_small_mod(a, capacity);
    }
}

/// An insertion into a ring that is not full takes the position as many places
/// after the one that comes back next as are taken, and it stays taken from then
/// on; a full ring gives none and stays as it is.
pub proof fn law_insert_takes_position_behind_taken_ones(
    ring: &mut AvailableRingHandler,
    pos: Option<u16>,
)
    requires
        old(ring).wf(),
        old(ring)@.capacity > 0,
        call_ensures(AvailableRingHandler::insert, (ring,), pos),
    ensures
        pos is Some <==> old(ring)@.len < old(ring)@.capacity,
        pos is Some ==> {
            &&& pos->0 as nat == (old(ring)@.start + old(ring)@.len) % old(ring)@.capacity
            &&& final(ring)@.capacity == old(ring)@.capacity
            &&& final(ring)@.start == old(ring)@.start
            &&& final(ring)@.len == old(ring)@.len + 1
        },
        pos is None ==> final(ring)@ == old(ring)@,
{
    old(ring).lemma_view_wf();
    law_ring_wraps_at_its_capacity(old(ring)@, 0);
}

/// What comes back is the position at the start, after which the start moves on
/// by one place; an empty ring gives none and stays as it is.
pub proof fn law_pop_gives_position_at_start(ring: &mut AvailableRingHandler, pos: Option<u16>)
    requires
        old(ring).wf(),
        call_ensures(AvailableRingHandler::pop, (ring,), pos),
    ensures
        pos is Some <==> old(ring)@.len > 0,
        pos is Some ==> {
            &&& pos->0 == old(ring)@.start
            &&& final(ring)@.capacity == old(ring)@.capacity
            &&& final(ring)@.start == (old(ring)@.start + 1) % old(ring)@.capacity
            &&& final(ring)@.len == old(ring)@.len - 1
        },
        pos is None ==> final(ring)@ == old(ring)@,
{
    old(ring).lemma_view_wf();
    if old(ring)@.len > 0 {
        law_ring_wraps_at_its_capacity(old(ring)@, 0);
    }
}

/// What a ring says of itself is what is taken in it.
pub proof fn law_ring_knows_what_is_taken(
    ring: AvailableRingHandler,
    empty: bool,
    full: bool,
    next: u16,
)
    requires
        ring.wf(),
        call_ensures(AvailableRingHandler::is_empty, (&ring,), empty),
        call_ensures(AvailableRingHandler::is_full, (&ring,), full),
        call_ensures(AvailableRingHandler::next_index, (&ring,), next),
    ensures
        empty <==> ring@.len == 0,
        full <==> ring@.capacity > 0 && ring@.len == ring@.capacity,
        next == ring@.start,
{
}

/// A ring begins empty, with every position free.
pub proof fn law_ring_begins_empty(
    max_elements: usize,
    new: AvailableRingHandler,
    ring: &mut AvailableRingHandler,
)
    requires
        call_ensures(AvailableRingHandler::new, (max_elements,), new),
        call_ensures(AvailableRingHandler::reset, (ring, max_elements), ()),
    ensures
        new@.capacity == max_elements,
        new@.start == 0,
        new@.len == 0,
        final(ring)@ == new@,
{
}

} // verus!
