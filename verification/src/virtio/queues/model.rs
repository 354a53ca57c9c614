//! The mathematical model of a split virtqueue: its state, the chains of
//! descriptors in it, and what holds of them.

use crate::virtio::queues::layout::{
    SharedSlice, VirtQueueAvailableElement, VirtQueueAvailableRing,
    VirtQueueBuffer, VirtQueueDescriptor, VirtQueueUsedElement, VirtQueueUsedRing,
    DESCRIPTOR_NEXT, DESCRIPTOR_WRITE_ONLY, QUEUE_MAX_ELEMENTS,
};
use crate::virtio::queues::ring::RingView;
use crate::virtio::queues::split_queue::SplitVirtQueueClient;
use crate::virtio::{VirtIOTransport, VirtQueueAddresses};
use vstd::prelude::*;

verus! {

/// The contents of an available ring.
pub struct AvailableRingView {
    pub flags: u16,
    pub idx: u16,
    pub ring: Seq<VirtQueueAvailableElement>,
    pub used_event: u16,
}

impl View for VirtQueueAvailableRing {
    type V = AvailableRingView;

    open spec fn view(&self) -> AvailableRingView {
        AvailableRingView {
            flags: self.flags,
            idx: self.idx,
            ring: self.ring@,
            used_event: self.used_event,
        }
    }
}

/// The contents of a used ring.
pub struct UsedRingView {
    pub flags: u16,
    pub idx: u16,
    pub ring: Seq<VirtQueueUsedElement>,
    pub avail_event: u16,
}

impl View for VirtQueueUsedRing {
    type V = UsedRingView;

    open spec fn view(&self) -> UsedRingView {
        UsedRingView {
            flags: self.flags,
            idx: self.idx,
            ring: self.ring@,
            avail_event: self.avail_event,
        }
    }
}

/// How far a 16 bit index is ahead of another one, allowing for wrap-around.
pub open spec fn index_distance(from: u16, to: u16) -> nat {
    if to >= from {
        (to - from) as nat
    } else {
        (to - from + 0x1_0000) as nat
    }
}

/// The 16 bit index after the given one.
pub open spec fn next_index(idx: u16) -> u16 {
    if idx == u16::MAX {
        0
    } else {
        (idx + 1) as u16
    }
}

/// The free slots below `limit`, in ascending order.
pub open spec fn free_below<'b>(buffers: Seq<Option<SharedSlice<'b>>>, limit: nat) -> Seq<int>
    decreases limit,
{
    if limit == 0 {
        Seq::empty()
    } else if buffers[limit - 1] is None {
        free_below(buffers, (limit - 1) as nat).push(limit - 1)
    } else {
        free_below(buffers, (limit - 1) as nat)
    }
}

/// The slot holds the last descriptor of a chain.
pub open spec fn is_tail<'b>(
    descriptors: Seq<VirtQueueDescriptor>,
    buffers: Seq<Option<SharedSlice<'b>>>,
    i: int,
) -> bool {
    buffers[i] is Some && !descriptors[i].has_next()
}

/// The number of slots below `limit` that hold the last descriptor of a chain.
pub open spec fn tails_below<'b>(
    descriptors: Seq<VirtQueueDescriptor>,
    buffers: Seq<Option<SharedSlice<'b>>>,
    limit: nat,
) -> nat
    decreases limit,
{
    if limit == 0 {
        0
    } else {
        tails_below(descriptors, buffers, (limit - 1) as nat) + if is_tail(
            descriptors,
            buffers,
            limit - 1,
        ) {
            1nat
        } else {
            0nat
        }
    }
}

/// The number of buffers in a chain: those before the first `None`.
pub open spec fn chain_len<'b>(chain: Seq<Option<VirtQueueBuffer<'b>>>) -> nat
    decreases chain.len(),
{
    if chain.len() == 0 || chain[0] is None {
        0
    } else {
        1 + chain_len(chain.skip(1))
    }
}

/// The chain after its buffers were taken out of it.
pub open spec fn emptied<'b>(chain: Seq<Option<VirtQueueBuffer<'b>>>) -> Seq<
    Option<VirtQueueBuffer<'b>>,
> {
    Seq::new(
        chain.len(),
        |k: int|
            if k < chain_len(chain) {
                None
            } else {
                chain[k]
            },
    )
}

/// Every buffer of the chain can be described to a device.
pub open spec fn chain_describable<'b>(chain: Seq<Option<VirtQueueBuffer<'b>>>) -> bool {
    forall|k: int| 0 <= k < chain_len(chain) ==> (#[trigger] chain[k])->0.describable()
}

/// The state of a split virtqueue.
pub struct QueueView<'a, 'b> {
    /// The descriptor table.
    pub descriptors: Seq<VirtQueueDescriptor>,
    /// For each descriptor, the slice that was lent to the device with it.
    pub buffers: Seq<Option<SharedSlice<'b>>>,
    /// The available ring.
    pub available: AvailableRingView,
    /// The used ring.
    pub used: UsedRingView,
    /// The positions of the available ring that are taken.
    pub ring: RingView,
    /// The index up to which the used ring has been processed.
    pub last_used_idx: u16,
    /// Where the queue lies in physical memory.
    pub addresses: VirtQueueAddresses,
    /// The queue was handed to the device.
    pub initialized: bool,
    /// The number under which the device knows the queue.
    pub queue_number: u32,
    /// The negotiated size of the queue.
    pub max_elements: nat,
    /// Used chains are to be passed on to the client.
    pub used_callbacks_enabled: bool,
    /// The client that used chains are passed on to.
    pub client: Option<&'a dyn SplitVirtQueueClient<'b>>,
    /// The transport through which the device is notified.
    pub transport: Option<&'a dyn VirtIOTransport>,
}

impl<'a, 'b> QueueView<'a, 'b> {
    /// The free slots of the descriptor table within the negotiated size.
    pub open spec fn free_slots(self) -> Seq<int> {
        free_below(self.buffers, self.max_elements)
    }

    /// The slots that the next chain of `n` buffers goes to.
    pub open spec fn next_slots(self, n: nat) -> Seq<int> {
        self.free_slots().take(n as int)
    }

    /// There is room in the descriptor table for the buffers of a chain.
    pub open spec fn fits(self, chain: Seq<Option<VirtQueueBuffer<'b>>>) -> bool {
        0 < chain_len(chain) <= self.free_slots().len()
    }

    /// The number of chains in the used ring that were not processed yet.
    pub open spec fn pending(self) -> nat {
        index_distance(self.last_used_idx, self.used.idx)
    }

    /// The element of the used ring that is processed next.
    pub open spec fn next_used(self) -> VirtQueueUsedElement {
        self.used.ring[self.last_used_idx as int % self.max_elements as int]
    }

    /// Following the descriptors leads through exactly these slots, all of
    /// which hold a buffer that lies where the descriptor says.
    pub open spec fn is_chain(self, slots: Seq<int>) -> bool {
        &&& slots.len() > 0
        &&& slots.no_duplicates()
        &&& forall|k: int|
            0 <= k < slots.len() ==> {
                &&& 0 <= #[trigger] slots[k] < self.buffers.len()
                &&& self.buffers[slots[k]] is Some
                &&& self.descriptors[slots[k]].addr == self.buffers[slots[k]]->0.addr
                &&& self.descriptors[slots[k]].has_next() <==> k + 1 < slots.len()
                &&& k + 1 < slots.len() ==> self.descriptors[slots[k]].next == slots[k + 1]
            }
    }

    /// The slots form a chain that begins at `head`.
    pub open spec fn is_chain_from(self, head: int, slots: Seq<int>) -> bool {
        self.is_chain(slots) && slots[0] == head
    }

    /// There is a chain that begins at `head`.
    pub open spec fn has_chain(self, head: int) -> bool {
        exists|slots: Seq<int>| self.is_chain_from(head, slots)
    }

    /// The slots of the chain that begins at `head`.
    pub open spec fn chain_from(self, head: int) -> Seq<int> {
        choose|slots: Seq<int>| self.is_chain_from(head, slots)
    }

    /// The used ring did not overrun, and its next element, if there is one,
    /// names the beginning of a chain.
    pub open spec fn poppable(self) -> bool {
        &&& self.pending() <= self.max_elements
        &&& self.pending() > 0 ==> self.has_chain(self.next_used().id as int)
    }

    /// The descriptor that the `k`th buffer of a chain gets when the chain is
    /// placed in `slots`.
    pub open spec fn placed_descriptor(
        self,
        chain: Seq<Option<VirtQueueBuffer<'b>>>,
        slots: Seq<int>,
        k: int,
    ) -> VirtQueueDescriptor {
        let buffer = chain[k]->0;
        let direction = if buffer.device_writable {
            DESCRIPTOR_WRITE_ONLY
        } else {
            0u16
        };
        if k + 1 < slots.len() {
            VirtQueueDescriptor {
                addr: buffer.buf.addr,
                len: buffer.len as u32,
                flags: direction | DESCRIPTOR_NEXT,
                next: slots[k + 1] as u16,
            }
        } else {
            VirtQueueDescriptor {
                addr: buffer.buf.addr,
                len: buffer.len as u32,
                flags: direction,
                next: self.descriptors[slots[k]].next,
            }
        }
    }

    /// The descriptor table after the buffers of `chain` were placed in `slots`.
    pub open spec fn placed_descriptors(
        self,
        chain: Seq<Option<VirtQueueBuffer<'b>>>,
        slots: Seq<int>,
    ) -> Seq<VirtQueueDescriptor> {
        Seq::new(
            self.descriptors.len(),
            |i: int|
                if slots.contains(i) {
                    self.placed_descriptor(chain, slots, slots.index_of(i))
                } else {
                    self.descriptors[i]
                },
        )
    }

    /// The lent slices after the buffers of `chain` were placed in `slots`.
    pub open spec fn placed_buffers(
        self,
        chain: Seq<Option<VirtQueueBuffer<'b>>>,
        slots: Seq<int>,
    ) -> Seq<Option<SharedSlice<'b>>> {
        Seq::new(
            self.buffers.len(),
            |i: int|
                if slots.contains(i) {
                    Some(chain[slots.index_of(i)]->0.buf)
                } else {
                    self.buffers[i]
                },
        )
    }

    /// The queue after the buffers of `chain` were placed in the first free
    /// slots.
    pub open spec fn with_chain(self, chain: Seq<Option<VirtQueueBuffer<'b>>>) -> QueueView<'a, 'b> {
        let slots = self.next_slots(chain_len(chain));
        QueueView {
            descriptors: self.placed_descriptors(chain, slots),
            buffers: self.placed_buffers(chain, slots),
            ..self
        }
    }

    /// The queue after the chain that begins at `head` was made available.
    pub open spec fn with_available(self, head: int) -> QueueView<'a, 'b> {
        QueueView {
            available: AvailableRingView {
                idx: next_index(self.available.idx),
                ring: self.available.ring.update(
                    self.ring.end() as int,
                    VirtQueueAvailableElement(head as u16),
                ),
                ..self.available
            },
            ring: self.ring.inserted(),
            ..self
        }
    }

    /// The queue after `chain` was placed and made available.
    pub open spec fn provided(self, chain: Seq<Option<VirtQueueBuffer<'b>>>) -> QueueView<'a, 'b> {
        self.with_chain(chain).with_available(self.free_slots()[0])
    }

    /// The queue after the descriptors in `slots` were zeroed and their slices
    /// given back.
    pub open spec fn without_chain(self, slots: Seq<int>) -> QueueView<'a, 'b> {
        QueueView {
            descriptors: Seq::new(
                self.descriptors.len(),
                |i: int|
                    if slots.contains(i) {
                        VirtQueueDescriptor::zero()
                    } else {
                        self.descriptors[i]
                    },
            ),
            buffers: Seq::new(
                self.buffers.len(),
                |i: int|
                    if slots.contains(i) {
                        None
                    } else {
                        self.buffers[i]
                    },
            ),
            ..self
        }
    }

    /// The buffer that the descriptor in the given slot describes.
    pub open spec fn buffer_at(self, i: int) -> VirtQueueBuffer<'b> {
        VirtQueueBuffer {
            buf: self.buffers[i]->0,
            len: self.descriptors[i].len as usize,
            device_writable: self.descriptors[i].write_only(),
        }
    }

    /// The buffers of the chain in `slots`, padded with `None`.
    pub open spec fn chain_buffers(self, slots: Seq<int>) -> Seq<Option<VirtQueueBuffer<'b>>> {
        Seq::new(
            QUEUE_MAX_ELEMENTS as nat,
            |k: int|
                if k < slots.len() {
                    Some(self.buffer_at(slots[k]))
                } else {
                    None
                },
        )
    }

    /// The queue after the next element of the used ring was processed.
    pub open spec fn used_taken(self) -> QueueView<'a, 'b> {
        QueueView { last_used_idx: next_index(self.last_used_idx), ..self }
    }

    /// The queue after the next used chain was taken from it.
    pub open spec fn popped(self) -> QueueView<'a, 'b> {
        QueueView {
            ring: self.ring.popped(),
            ..self.used_taken().without_chain(self.chain_from(self.next_used().id as int))
        }
    }

    /// What holds of every queue, whatever the device writes to the memory that
    /// it shares with the driver: everything has its size, and slices are lent
    /// and positions of the available ring taken only within the negotiated size
    /// and once the queue is initialized.
    pub open spec fn inv(self) -> bool {
        &&& self.descriptors.len() == QUEUE_MAX_ELEMENTS
        &&& self.buffers.len() == QUEUE_MAX_ELEMENTS
        &&& self.available.ring.len() == QUEUE_MAX_ELEMENTS
        &&& self.used.ring.len() == QUEUE_MAX_ELEMENTS
        &&& self.max_elements <= QUEUE_MAX_ELEMENTS
        &&& self.ring.wf()
        &&& self.ring.capacity == self.max_elements
        &&& !self.initialized ==> self.ring.start == 0 && self.ring.len == 0
        &&& forall|i: int|
            0 <= i < QUEUE_MAX_ELEMENTS && (#[trigger] self.buffers[i]) is Some ==> {
                &&& self.initialized
                &&& i < self.max_elements
            }
    }

    /// The number of chains in the descriptor table.
    pub open spec fn chain_count(self) -> nat {
        tails_below(self.descriptors, self.buffers, self.max_elements)
    }

    /// What holds as long as nobody but the driver writes to the descriptor
    /// table: descriptors say where their slices lie, and no more positions of
    /// the available ring are taken than there are chains in the table.
    pub open spec fn intact(self) -> bool {
        &&& forall|i: int|
            0 <= i < self.buffers.len() && (#[trigger] self.buffers[i]) is Some
                ==> self.descriptors[i].addr == self.buffers[i]->0.addr
        &&& self.ring.len <= self.chain_count()
    }
}

} // verus!
