//! What the operations of a split virtqueue do to the memory that it shares with
//! a device, bit by bit and position by position.

use crate::error::ErrorCode;
use crate::virtio::queues::layout::{
    VirtQueueAvailableRing, VirtQueueBuffer, VirtQueueDescriptor, VirtQueueDescriptors,
    VirtQueueUsedElement, VirtQueueUsedRing, QUEUE_MAX_ELEMENTS,
};
use crate::virtio::queues::lemmas;
use crate::virtio::queues::model;
use crate::virtio::queues::model::QueueView;
use crate::virtio::queues::ring;
use crate::virtio::queues::split_queue::{SplitVirtQueue, UsedChain};
use crate::virtio::{QueueNotification, VirtQueue, VirtQueueAddresses};
use vstd::prelude::*;

verus! {

/// The free slots are exactly the slots within the negotiated size that no slice
/// is lent with, in ascending order.
pub proof fn law_free_slots_hold_no_slice<'a, 'b>(queue: QueueView<'a, 'b>)
    ensures
        forall|i: int|
            #![trigger queue.buffers[i]]
            queue.free_slots().contains(i) <==> 0 <= i < queue.max_elements
                && queue.buffers[i] is None,
        queue.free_slots().len() <= queue.max_elements,
        forall|k: int|
            0 <= k < queue.free_slots().len() ==> {
                &&& 0 <= #[trigger] queue.free_slots()[k] < queue.max_elements
                &&& queue.buffers[queue.free_slots()[k]] is None
            },
        forall|j: int, k: int|
            0 <= j < k < queue.free_slots().len() ==> #[trigger] queue.free_slots()[j]
                < #[trigger] queue.free_slots()[k],
{
    lemmas::lemma_free_below(queue.buffers, queue.max_elements);
}

/// A chain ends where its first `None` stands, or else where it ends itself.
/// Taking its buffers out of it leaves `None` up to there, and everything behind
/// that as it was. It is describable when each of the buffers before that lies
/// within its slice and has a length that is not a multiple of 2^32.
pub proof fn law_chain_ends_at_first_gap<'b>(chain: Seq<Option<VirtQueueBuffer<'b>>>, k: int)
    requires
        0 <= k < chain.len(),
    ensures
        model::chain_len(chain) <= chain.len(),
        k < model::chain_len(chain) <==> forall|j: int| 0 <= j <= k ==> (#[trigger] chain[j]) is Some,
        model::emptied(chain).len() == chain.len(),
        (forall|j: int| 0 <= j <= k ==> (#[trigger] chain[j]) is Some) ==> model::emptied(
            chain,
        )[k] is None,
        (exists|j: int| 0 <= j <= k && (#[trigger] chain[j]) is None) ==> model::emptied(chain)[k]
            == chain[k],
        model::chain_describable(chain) <==> forall|j: int|
            0 <= j < model::chain_len(chain) ==> {
                &&& (#[trigger] chain[j])->0.len <= chain[j]->0.buf.bytes@.len()
                &&& chain[j]->0.len as int % 0x1_0000_0000 != 0
            },
{
    lemmas::lemma_chain_len(chain);
    assert forall|j: int| 0 <= j < model::chain_len(chain) implies (
    #[trigger] chain[j])->0.describable() <==> {
        &&& chain[j]->0.len <= chain[j]->0.buf.bytes@.len()
        &&& chain[j]->0.len as int % 0x1_0000_0000 != 0
    } by {
        lemma_length_in_descriptor(chain[j]->0.len);
    }
}

/// The length of a buffer is stored in 32 bits.
pub(crate) proof fn lemma_length_in_descriptor(len: usize)
    ensures
        (len as u32) as int == len as int % 0x1_0000_0000,
        len <= u32::MAX ==> len as u32 == len,
{
    let wide = len as u64;
    assert(wide as u32 == wide % 0x1_0000_0000) by (bit_vector);
    assert(len as u32 == wide as u32);
}

/// As many chains wait in the used ring as its index is ahead of the index up to
/// which it was processed, both of which wrap round at 2^16.
pub proof fn law_pending_is_how_far_used_index_is_ahead<'a, 'b>(queue: QueueView<'a, 'b>)
    ensures
        queue.pending() < 0x1_0000,
        (queue.last_used_idx + queue.pending()) % 0x1_0000 == queue.used.idx,
{
}

/// The used ring is read round and round: what the device writes to the position
/// that an index names modulo the queue size is what is read when the driver has
/// come to that index, on every lap, and the next index is read after it.
pub proof fn law_used_elements_are_read_round_the_ring<'a, 'b>(
    queue: QueueView<'a, 'b>,
    idx: u16,
    element: VirtQueueUsedElement,
)
    requires
        queue.max_elements > 0,
        queue.used.ring[idx as int % queue.max_elements as int] == element,
    ensures
        queue.last_used_idx == idx ==> queue.next_used() == element,
        queue.last_used_idx.wrapping_add(1) == idx ==> queue.popped().next_used() == element,
{
}

/// The contents of the rings are all there is to them.
pub proof fn law_ring_contents(available: VirtQueueAvailableRing, used: VirtQueueUsedRing)
    ensures
        available@.flags == available.flags,
        available@.idx == available.idx,
        available@.ring == available.ring@,
        available@.used_event == available.used_event,
        used@.flags == used.flags,
        used@.idx == used.idx,
        used@.ring == used.ring@,
        used@.avail_event == used.avail_event,
{
}

/// Providing a chain puts its buffers into the first free slots, in order:
///
/// - the descriptor of a buffer has its address, the lower 32 bits of its length,
///   and as flags 1 if another buffer follows, plus 2 if the device writes to the
///   buffer, and no other flag
/// - a descriptor that another one follows names it
/// - every other descriptor, and what is lent with it, stays
///
/// The first free slot is then written to the next position of the available
/// ring, whose index goes up by one. Nothing else changes.
pub proof fn law_provided_chain_in_memory<'a, 'b>(
    queue: QueueView<'a, 'b>,
    chain: Seq<Option<VirtQueueBuffer<'b>>>,
)
    requires
        queue.inv(),
        0 < model::chain_len(chain) <= queue.free_slots().len(),
        queue.ring.len < queue.ring.capacity,
    ensures
        ({
            let n = model::chain_len(chain) as int;
            let free = queue.free_slots();
            let after = queue.provided(chain);
            let entry = ((queue.ring.start + queue.ring.len) % queue.ring.capacity) as int;
            &&& after.descriptors.len() == queue.descriptors.len()
            &&& after.buffers.len() == queue.buffers.len()
            &&& forall|k: int|
                0 <= k < n ==> {
                    let descriptor = after.descriptors[#[trigger] free[k]];
                    &&& after.buffers[free[k]] == Some(chain[k]->0.buf)
                    &&& descriptor.addr == chain[k]->0.buf.addr
                    &&& descriptor.len as int == chain[k]->0.len as int % 0x1_0000_0000
                    &&& descriptor.flags == (if k + 1 < n {
                        1int
                    } else {
                        0
                    }) + (if chain[k]->0.device_writable {
                        2int
                    } else {
                        0
                    })
                    &&& descriptor.flags & 4 == 0
                    &&& descriptor.next == if k + 1 < n {
                        free[k + 1]
                    } else {
                        queue.descriptors[free[k]].next as int
                    }
                }
            &&& forall|i: int|
                0 <= i < queue.descriptors.len() && (forall|k: int|
                    0 <= k < n ==> #[trigger] free[k] != i) ==> {
                    &&& #[trigger] after.descriptors[i] == queue.descriptors[i]
                    &&& after.buffers[i] == queue.buffers[i]
                }
            &&& after.available.ring.len() == queue.available.ring.len()
            &&& after.available.ring[entry].0 == free[0]
            &&& forall|i: int|
                0 <= i < queue.available.ring.len() && i != entry
                    ==> #[trigger] after.available.ring[i] == queue.available.ring[i]
            &&& after.available.idx == queue.available.idx.wrapping_add(1)
            &&& after.available.flags == queue.available.flags
            &&& after.available.used_event == queue.available.used_event
            &&& after.ring.capacity == queue.ring.capacity
            &&& after.ring.start == queue.ring.start
            &&& after.ring.len == queue.ring.len + 1
            &&& after.used == queue.used
            &&& after.last_used_idx == queue.last_used_idx
            &&& after.addresses == queue.addresses
            &&& after.initialized == queue.initialized
            &&& after.queue_number == queue.queue_number
            &&& after.max_elements == queue.max_elements
            &&& after.used_callbacks_enabled == queue.used_callbacks_enabled
            &&& after.client == queue.client
            &&& after.transport == queue.transport
        }),
{
    let n = model::chain_len(chain);
    let free = queue.free_slots();
    let slots = queue.next_slots(n);
    let after = queue.provided(chain);
    let entry = ((queue.ring.start + queue.ring.len) % queue.ring.capacity) as int;
    lemmas::lemma_next_slots(queue, n);
    lemmas::lemma_free_below(queue.buffers, queue.max_elements);
    ring::law_ring_wraps_at_its_capacity(queue.ring, queue.ring.len);
    assert forall|k: int| 0 <= k < n implies {
        let descriptor = after.descriptors[#[trigger] free[k]];
        &&& after.buffers[free[k]] == Some(chain[k]->0.buf)
        &&& descriptor.addr == chain[k]->0.buf.addr
        &&& descriptor.len as int == chain[k]->0.len as int % 0x1_0000_0000
        &&& descriptor.flags == (if k + 1 < n {
            1int
        } else {
            0
        }) + (if chain[k]->0.device_writable {
            2int
        } else {
            0
        })
        &&& descriptor.flags & 4 == 0
        &&& descriptor.next == if k + 1 < n {
            free[k + 1]
        } else {
            queue.descriptors[free[k]].next as int
        }
    } by {
        assert(slots[k] == free[k]);
        lemmas::lemma_index_of(slots, k);
        lemma_length_in_descriptor(chain[k]->0.len);
        assert(0u16 | 1 == 1) by (bit_vector);
        assert(2u16 | 1 == 3) by (bit_vector);
        assert(0u16 & 4 == 0 && 1u16 & 4 == 0 && 2u16 & 4 == 0 && 3u16 & 4 == 0) by (bit_vector);
        if k + 1 < n {
            assert(slots[k + 1] == free[k + 1]);
        }
    }
    assert forall|i: int|
        0 <= i < queue.descriptors.len() && (forall|k: int|
            0 <= k < n ==> #[trigger] free[k] != i) implies {
        &&& #[trigger] after.descriptors[i] == queue.descriptors[i]
        &&& after.buffers[i] == queue.buffers[i]
    } by {
        if slots.contains(i) {
            assert(free[slots.index_of(i)] == i);
        }
    }
    assert(0 <= free[0] < queue.max_elements);
}

/// The next used chain can be taken when the used ring did not overrun and what
/// its next element names is a chain: a descriptor whose slice is lent and lies
/// where it says, and which either ends the chain or leads to another such
/// descriptor that does.
pub proof fn law_what_can_be_taken_back<'a, 'b>(queue: QueueView<'a, 'b>)
    requires
        queue.inv(),
    ensures
        queue.poppable() <==> {
            let head = queue.used.ring[queue.last_used_idx as int
                % queue.max_elements as int].id as int;
            let next = queue.descriptors[head].next as int;
            &&& queue.pending() <= queue.max_elements
            &&& queue.pending() == 0 || {
                &&& head < 2
                &&& queue.buffers[head] is Some
                &&& queue.buffers[head]->0.addr == queue.descriptors[head].addr
                &&& queue.descriptors[head].flags & 1 == 0 || {
                    &&& next < 2
                    &&& next != head
                    &&& queue.buffers[next] is Some
                    &&& queue.buffers[next]->0.addr == queue.descriptors[next].addr
                    &&& queue.descriptors[next].flags & 1 == 0
                }
            }
        },
{
    let head = queue.used.ring[queue.last_used_idx as int % queue.max_elements as int].id as int;
    let next = queue.descriptors[head].next as int;
    if queue.has_chain(head) {
        let slots = queue.chain_from(head);
        assert(queue.is_chain_from(head, slots));
        lemmas::lemma_distinct_slots(slots, 2);
        assert(slots[0] == head);
        if slots.len() == 2 {
            assert(slots[1] == next);
            assert(slots[0] != slots[1]);
        }
    }
    if 0 <= head < 2 && queue.buffers[head] is Some && queue.buffers[head]->0.addr
        == queue.descriptors[head].addr {
        if queue.descriptors[head].flags & 1 == 0 {
            assert(queue.is_chain_from(head, seq![head]));
        } else if next < 2 && next != head && queue.buffers[next] is Some
            && queue.buffers[next]->0.addr == queue.descriptors[next].addr
            && queue.descriptors[next].flags & 1 == 0 {
            assert(queue.is_chain_from(head, seq![head, next]));
        }
    }
}

/// Taking the next used chain gives back what was lent with the descriptor that
/// the used ring names, and with the one that it leads to, if its flag 1 says that
/// it leads to one: the slice, with the length that the descriptor has, and
/// writable by the device if it has flag 2. These descriptors are zeroed and hold
/// nothing any more; all others, and what is lent with them, stay. The used ring
/// is processed by one element, and the position of the available ring that was
/// taken first, if there is one, is given back. Nothing else changes.
pub proof fn law_taken_chain_in_memory<'a, 'b>(queue: QueueView<'a, 'b>)
    requires
        queue.inv(),
        queue.poppable(),
        queue.pending() > 0,
    ensures
        ({
            let head = queue.used.ring[queue.last_used_idx as int
                % queue.max_elements as int].id as int;
            let next = queue.descriptors[head].next as int;
            let chained = queue.descriptors[head].flags & 1 != 0;
            let taken = queue.chain_buffers(queue.chain_from(queue.next_used().id as int));
            let after = queue.popped();
            &&& taken.len() == 2
            &&& taken[0] is Some
            &&& taken[0]->0.buf == queue.buffers[head]->0
            &&& taken[0]->0.len == queue.descriptors[head].len
            &&& taken[0]->0.device_writable == (queue.descriptors[head].flags & 2 != 0)
            &&& taken[1] is Some <==> chained
            &&& chained ==> {
                &&& taken[1]->0.buf == queue.buffers[next]->0
                &&& taken[1]->0.len == queue.descriptors[next].len
                &&& taken[1]->0.device_writable == (queue.descriptors[next].flags & 2 != 0)
            }
            &&& after.descriptors.len() == queue.descriptors.len()
            &&& after.buffers.len() == queue.buffers.len()
            &&& forall|i: int|
                0 <= i < queue.descriptors.len() ==> if i == head || (chained && i == next) {
                    &&& #[trigger] after.descriptors[i] == (VirtQueueDescriptor {
                        addr: 0,
                        len: 0,
                        flags: 0,
                        next: 0,
                    })
                    &&& after.buffers[i] is None
                } else {
                    &&& after.descriptors[i] == queue.descriptors[i]
                    &&& after.buffers[i] == queue.buffers[i]
                }
            &&& after.last_used_idx == queue.last_used_idx.wrapping_add(1)
            &&& after.ring.capacity == queue.ring.capacity
            &&& queue.ring.len == 0 ==> after.ring == queue.ring
            &&& queue.ring.len > 0 ==> {
                &&& after.ring.start == (queue.ring.start + 1) % queue.ring.capacity
                &&& after.ring.len == queue.ring.len - 1
            }
            &&& after.available == queue.available
            &&& after.used == queue.used
            &&& after.addresses == queue.addresses
            &&& after.initialized == queue.initialized
            &&& after.queue_number == queue.queue_number
            &&& after.max_elements == queue.max_elements
            &&& after.used_callbacks_enabled == queue.used_callbacks_enabled
            &&& after.client == queue.client
            &&& after.transport == queue.transport
        }),
{
    let head = queue.used.ring[queue.last_used_idx as int % queue.max_elements as int].id as int;
    let next = queue.descriptors[head].next as int;
    let slots = queue.chain_from(head);
    assert(queue.is_chain_from(head, slots));
    lemmas::lemma_distinct_slots(slots, 2);
    assert(slots[0] == head);
    assert(queue.descriptors[head].has_next() <==> slots.len() == 2);
    if slots.len() == 2 {
        assert(slots[1] == next);
    }
    assert forall|i: int| slots.contains(i) <==> i == head || (slots.len() == 2 && i == next) by {
        if slots.contains(i) {
            let k = slots.index_of(i);
            assert(slots[k] == i);
        }
    }
    if queue.ring.len > 0 {
        ring::law_ring_wraps_at_its_capacity(queue.ring, 1);
    }
}

/// A call that provides a chain succeeds exactly when there are as many free slots
/// as the chain has buffers. The device then finds each buffer described in a slot
/// that was free, flagged 1 if another buffer follows, plus 2 if the device writes
/// to it, and nothing else; the first of these slots is in the available ring; and
/// the notification that is due names the queue. Otherwise nothing changes.
pub proof fn law_provide_shares_chain_with_device<'a, 'b>(
    queue: &mut SplitVirtQueue<'a, 'b>,
    chain: &mut [Option<VirtQueueBuffer<'b>>],
    provided: Result<QueueNotification<'a>, ErrorCode>,
)
    requires
        old(queue).wf(),
        model::chain_len(old(chain)@) > 0,
        old(queue)@.ring.len < old(queue)@.ring.capacity,
        call_ensures(SplitVirtQueue::provide_buffer_chain, (queue, chain), provided),
    ensures
        provided is Ok <==> model::chain_len(old(chain)@) <= old(queue)@.free_slots().len(),
        provided is Err ==> {
            &&& provided->Err_0 == ErrorCode::NOMEM
            &&& final(queue)@ == old(queue)@
            &&& final(chain)@ == old(chain)@
        },
        provided is Ok ==> {
            let n = model::chain_len(old(chain)@) as int;
            let free = old(queue)@.free_slots();
            let entry = ((old(queue)@.ring.start + old(queue)@.ring.len) % old(
                queue,
            )@.ring.capacity) as int;
            &&& provided->Ok_0 == (QueueNotification {
                transport: old(queue)@.transport->0,
                queue_id: old(queue)@.queue_number,
            })
            &&& forall|k: int| 0 <= k < n ==> (#[trigger] final(chain)@[k]) is None
            &&& forall|k: int|
                n <= k < old(chain)@.len() ==> #[trigger] final(chain)@[k] == old(chain)@[k]
            &&& forall|k: int|
                0 <= k < n ==> {
                    let descriptor = final(queue)@.descriptors[#[trigger] free[k]];
                    &&& old(queue)@.buffers[free[k]] is None
                    &&& final(queue)@.buffers[free[k]] == Some(old(chain)@[k]->0.buf)
                    &&& descriptor.addr == old(chain)@[k]->0.buf.addr
                    &&& descriptor.len as int == old(chain)@[k]->0.len as int % 0x1_0000_0000
                    &&& descriptor.flags == (if k + 1 < n {
                        1int
                    } else {
                        0
                    }) + (if old(chain)@[k]->0.device_writable {
                        2int
                    } else {
                        0
                    })
                    &&& descriptor.flags & 4 == 0
                    &&& k + 1 < n ==> descriptor.next == free[k + 1]
                }
            &&& final(queue)@.available.ring[entry].0 == free[0]
            &&& final(queue)@.available.idx == old(queue)@.available.idx.wrapping_add(1)
            &&& final(queue)@.available.flags == old(queue)@.available.flags
        },
{
    old(queue).lemma_wf_inv();
    lemmas::lemma_free_below(old(queue)@.buffers, old(queue)@.max_elements);
    lemmas::lemma_chain_len(old(chain)@);
    if model::chain_len(old(chain)@) <= old(queue)@.free_slots().len() {
        law_provided_chain_in_memory(old(queue)@, old(chain)@);
    }
}

/// A call that takes a used chain gives one exactly when the used ring is ahead.
/// It is the chain that begins at the descriptor that the used ring names at the
/// position of the last processed index modulo the queue size, and the number of
/// bytes is what stands there too. The next call reads at the next index.
pub proof fn law_pop_takes_what_device_returned<'a, 'b>(
    queue: &mut SplitVirtQueue<'a, 'b>,
    used: Option<([Option<VirtQueueBuffer<'b>>; QUEUE_MAX_ELEMENTS], usize)>,
)
    requires
        old(queue).wf(),
        old(queue)@.poppable(),
        call_ensures(SplitVirtQueue::pop_used_descriptor_chain, (queue,), used),
    ensures
        used is Some <==> old(queue)@.used.idx != old(queue)@.last_used_idx,
        used is None ==> final(queue)@ == old(queue)@,
        used matches Some((taken, bytes_used)) ==> {
            let pos = old(queue)@.last_used_idx as int % old(queue)@.max_elements as int;
            let head = old(queue)@.used.ring[pos].id as int;
            let next = old(queue)@.descriptors[head].next as int;
            let chained = old(queue)@.descriptors[head].flags & 1 != 0;
            &&& bytes_used == old(queue)@.used.ring[pos].len
            &&& taken@[0] is Some
            &&& taken@[0]->0.buf == old(queue)@.buffers[head]->0
            &&& taken@[0]->0.len == old(queue)@.descriptors[head].len
            &&& taken@[0]->0.device_writable == (old(queue)@.descriptors[head].flags & 2 != 0)
            &&& taken@[1] is Some <==> chained
            &&& chained ==> {
                &&& taken@[1]->0.buf == old(queue)@.buffers[next]->0
                &&& taken@[1]->0.len == old(queue)@.descriptors[next].len
                &&& taken@[1]->0.device_writable == (old(queue)@.descriptors[next].flags & 2 != 0)
            }
            &&& final(queue)@.buffers[head] is None
            &&& chained ==> final(queue)@.buffers[next] is None
            &&& final(queue)@.last_used_idx == old(queue)@.last_used_idx.wrapping_add(1)
            &&& final(queue)@.used == old(queue)@.used
        },
{
    old(queue).lemma_wf_inv();
    law_pending_is_how_far_used_index_is_ahead(old(queue)@);
    if old(queue)@.pending() > 0 {
        law_taken_chain_in_memory(old(queue)@);
        law_what_can_be_taken_back(old(queue)@);
    }
}

/// An interrupt delivers the next chain that the device returned exactly when
/// callbacks are enabled and the used ring is ahead, and it delivers to the client
/// of the queue, under its number, what taking the chain would give.
pub proof fn law_interrupt_delivers_what_device_returned<'a, 'b>(
    queue: &mut SplitVirtQueue<'a, 'b>,
    used: Option<UsedChain<'a, 'b>>,
)
    requires
        old(queue).wf(),
        old(queue)@.poppable(),
        call_ensures(
            <SplitVirtQueue<'a, 'b> as VirtQueue<'a, 'b>>::used_interrupt,
            (queue,),
            used,
        ),
    ensures
        used is Some <==> old(queue)@.used_callbacks_enabled && old(queue)@.used.idx != old(
            queue,
        )@.last_used_idx,
        used is None ==> final(queue)@ == old(queue)@,
        used is Some ==> {
            let pos = old(queue)@.last_used_idx as int % old(queue)@.max_elements as int;
            let head = old(queue)@.used.ring[pos].id as int;
            let next = old(queue)@.descriptors[head].next as int;
            let chained = old(queue)@.descriptors[head].flags & 1 != 0;
            let taken = used->0.buffer_chain@;
            &&& used->0.client == old(queue)@.client
            &&& used->0.queue_number == old(queue)@.queue_number
            &&& used->0.bytes_used == old(queue)@.used.ring[pos].len
            &&& taken[0] is Some
            &&& taken[0]->0.buf == old(queue)@.buffers[head]->0
            &&& taken[0]->0.len == old(queue)@.descriptors[head].len
            &&& taken[0]->0.device_writable == (old(queue)@.descriptors[head].flags & 2 != 0)
            &&& taken[1] is Some <==> chained
            &&& chained ==> {
                &&& taken[1]->0.buf == old(queue)@.buffers[next]->0
                &&& taken[1]->0.len == old(queue)@.descriptors[next].len
                &&& taken[1]->0.device_writable == (old(queue)@.descriptors[next].flags & 2 != 0)
            }
            &&& final(queue)@.last_used_idx == old(queue)@.last_used_idx.wrapping_add(1)
            &&& final(queue)@.used_callbacks_enabled
        },
{
    old(queue).lemma_wf_inv();
    law_pending_is_how_far_used_index_is_ahead(old(queue)@);
    if old(queue)@.pending() > 0 {
        law_taken_chain_in_memory(old(queue)@);
    }
}

/// A queue counts the slots within its size that no slice is lent with, and the
/// elements by which the used ring is ahead. It can be asked whether the next used
/// chain can be taken, and whether there is a position left in the available ring.
pub proof fn law_queue_counts<'a, 'b>(
    queue: SplitVirtQueue<'a, 'b>,
    free: usize,
    pending: usize,
    can_pop: bool,
    full: bool,
)
    requires
        queue.wf(),
        call_ensures(SplitVirtQueue::free_descriptor_count, (&queue,), free),
        call_ensures(SplitVirtQueue::used_descriptor_chains_count, (&queue,), pending),
        call_ensures(SplitVirtQueue::can_pop_used_descriptor_chain, (&queue,), can_pop),
        call_ensures(SplitVirtQueue::is_available_ring_full, (&queue,), full),
    ensures
        free == (if queue@.max_elements > 0 && queue@.buffers[0] is None {
            1int
        } else {
            0
        }) + (if queue@.max_elements > 1 && queue@.buffers[1] is None {
            1int
        } else {
            0
        }),
        (queue@.last_used_idx + pending) % 0x1_0000 == queue@.used.idx,
        pending < 0x1_0000,
        pending == 0 && queue@.used.idx == queue@.last_used_idx ==> can_pop,
        can_pop ==> pending <= queue@.max_elements,
        can_pop && pending > 0 ==> {
            let head = queue@.used.ring[queue@.last_used_idx as int
                % queue@.max_elements as int].id as int;
            head < 2 && queue@.buffers[head] is Some
        },
        full <==> queue@.max_elements > 0 && queue@.ring.len == queue@.max_elements,
{
    queue.lemma_wf_inv();
    reveal_with_fuel(model::free_below, 3);
    law_pending_is_how_far_used_index_is_ahead(queue@);
    law_what_can_be_taken_back(queue@);
}

/// The negotiated size is the largest one that neither the device nor the queue,
/// which has room for two elements, goes beyond, and nothing is taken in the
/// available ring then.
pub proof fn law_negotiated_size_suits_both<'a, 'b>(
    queue: &mut SplitVirtQueue<'a, 'b>,
    device_max_elements: usize,
    negotiated: usize,
)
    requires
        call_ensures(
            <SplitVirtQueue<'a, 'b> as VirtQueue<'a, 'b>>::negotiate_queue_size,
            (queue, device_max_elements),
            negotiated,
        ),
    ensures
        negotiated <= 2,
        negotiated <= device_max_elements,
        negotiated == 2 || negotiated == device_max_elements,
        final(queue)@.max_elements == negotiated,
        final(queue)@.ring.capacity == negotiated,
        final(queue)@.ring.start == 0,
        final(queue)@.ring.len == 0,
        final(queue)@ == (QueueView {
            max_elements: final(queue)@.max_elements,
            ring: final(queue)@.ring,
            ..old(queue)@
        }),
{
}

/// A queue that is started is known under the number that it was started under,
/// and nothing else about it changes.
pub proof fn law_started_queue_has_its_number<'a, 'b>(
    queue: &mut SplitVirtQueue<'a, 'b>,
    number: u32,
    started: SplitVirtQueue<'a, 'b>,
    known_as: u32,
    is_started: bool,
)
    requires
        call_ensures(
            <SplitVirtQueue<'a, 'b> as VirtQueue<'a, 'b>>::initialize,
            (queue, number),
            (),
        ),
        started == *final(queue),
        call_ensures(SplitVirtQueue::queue_number, (&started,), known_as),
        call_ensures(SplitVirtQueue::is_initialized, (&started,), is_started),
    ensures
        known_as == number,
        is_started,
        started@.queue_number == number,
        started@ == (QueueView {
            queue_number: started@.queue_number,
            initialized: started@.initialized,
            ..old(queue)@
        }),
{
}

/// Callbacks are on after they were enabled, whatever they were before, and off
/// after they were disabled.
pub proof fn law_callbacks_are_switched<'a, 'b>(
    on: &mut SplitVirtQueue<'a, 'b>,
    off: &mut SplitVirtQueue<'a, 'b>,
)
    requires
        call_ensures(SplitVirtQueue::enable_used_callbacks, (on,), ()),
        call_ensures(SplitVirtQueue::disable_used_callbacks, (off,), ()),
    ensures
        final(on)@.used_callbacks_enabled,
        !final(off)@.used_callbacks_enabled,
        final(on)@ == (QueueView {
            used_callbacks_enabled: final(on)@.used_callbacks_enabled,
            ..old(on)@
        }),
        final(off)@ == (QueueView {
            used_callbacks_enabled: final(off)@.used_callbacks_enabled,
            ..old(off)@
        }),
{
}

/// A new queue holds what is in the memory, lends nothing, has nothing taken in
/// the available ring, is to process the used ring from the beginning, and passes
/// nothing on.
pub proof fn law_new_queue_lends_nothing<'a, 'b>(
    descriptors: VirtQueueDescriptors,
    available_ring: VirtQueueAvailableRing,
    used_ring: VirtQueueUsedRing,
    addresses: VirtQueueAddresses,
    queue: SplitVirtQueue<'a, 'b>,
)
    requires
        call_ensures(
            SplitVirtQueue::new,
            (descriptors, available_ring, used_ring, addresses),
            queue,
        ),
    ensures
        queue@.descriptors == descriptors.0@,
        queue@.available.flags == available_ring.flags,
        queue@.available.idx == available_ring.idx,
        queue@.available.ring == available_ring.ring@,
        queue@.available.used_event == available_ring.used_event,
        queue@.used.idx == used_ring.idx,
        queue@.used.ring == used_ring.ring@,
        queue@.addresses == addresses,
        queue@.buffers.len() == 2,
        queue@.buffers[0] is None,
        queue@.buffers[1] is None,
        queue@.max_elements == 2,
        queue@.ring.capacity == 2,
        queue@.ring.start == 0,
        queue@.ring.len == 0,
        queue@.last_used_idx == 0,
        !queue@.initialized,
        !queue@.used_callbacks_enabled,
        queue@.client is None,
        queue@.transport is None,
{
}

/// What was found in memory is what the queue holds from then on, in place of what
/// it held there, and what the device is to read is read from it.
pub proof fn law_queue_holds_what_was_loaded<'a, 'b>(
    queue: &mut SplitVirtQueue<'a, 'b>,
    descriptors: VirtQueueDescriptors,
    second: &mut SplitVirtQueue<'a, 'b>,
    available_ring: VirtQueueAvailableRing,
    third: &mut SplitVirtQueue<'a, 'b>,
    used_ring: VirtQueueUsedRing,
    loaded: SplitVirtQueue<'a, 'b>,
    table: &VirtQueueDescriptors,
    ring: &VirtQueueAvailableRing,
)
    requires
        call_ensures(SplitVirtQueue::load_descriptors, (queue, descriptors), ()),
        *old(second) == *final(queue),
        call_ensures(SplitVirtQueue::load_available_ring, (second, available_ring), ()),
        *old(third) == *final(second),
        call_ensures(SplitVirtQueue::load_used_ring, (third, used_ring), ()),
        loaded == *final(third),
        call_ensures(SplitVirtQueue::descriptors, (&loaded,), table),
        call_ensures(SplitVirtQueue::available_ring, (&loaded,), ring),
    ensures
        table.0@ == descriptors.0@,
        ring.flags == available_ring.flags,
        ring.idx == available_ring.idx,
        ring.ring@ == available_ring.ring@,
        ring.used_event == available_ring.used_event,
        loaded@.descriptors == descriptors.0@,
        loaded@.available.idx == available_ring.idx,
        loaded@.used.flags == used_ring.flags,
        loaded@.used.idx == used_ring.idx,
        loaded@.used.ring == used_ring.ring@,
        loaded@ == (QueueView {
            descriptors: loaded@.descriptors,
            available: loaded@.available,
            used: loaded@.used,
            ..old(queue)@
        }),
{
}

/// What a queue says of itself is how it is set up.
pub proof fn law_queue_knows_its_setup<'a, 'b>(
    queue: SplitVirtQueue<'a, 'b>,
    addresses: VirtQueueAddresses,
    size: usize,
    number: u32,
    started: bool,
    callbacks: bool,
    has_transport: bool,
)
    requires
        call_ensures(
            <SplitVirtQueue<'a, 'b> as VirtQueue<'a, 'b>>::physical_addresses,
            (&queue,),
            addresses,
        ),
        call_ensures(
            <SplitVirtQueue<'a, 'b> as VirtQueue<'a, 'b>>::negotiated_queue_size,
            (&queue,),
            size,
        ),
        call_ensures(SplitVirtQueue::queue_number, (&queue,), number),
        call_ensures(SplitVirtQueue::is_initialized, (&queue,), started),
        call_ensures(SplitVirtQueue::used_callbacks_enabled, (&queue,), callbacks),
        call_ensures(SplitVirtQueue::has_transport, (&queue,), has_transport),
    ensures
        addresses.descriptor_area == queue@.addresses.descriptor_area,
        addresses.driver_area == queue@.addresses.driver_area,
        addresses.device_area == queue@.addresses.device_area,
        size == queue@.max_elements,
        number == queue@.queue_number,
        started == queue@.initialized,
        callbacks == queue@.used_callbacks_enabled,
        has_transport <==> queue@.transport is Some,
{
}

/// A transport can set a consistent queue up until it is started, and from then on
/// can have it serve interrupts, whatever the device writes while callbacks are
/// off, and as long as what it returns can be taken back while they are on.
pub proof fn law_when_transport_can_drive_queue<'a, 'b>(queue: SplitVirtQueue<'a, 'b>)
    requires
        queue.wf(),
    ensures
        queue.startable() <==> !queue@.initialized,
        queue.started() <==> queue@.initialized,
        queue.deliverable() <==> queue@.initialized && (!queue@.used_callbacks_enabled
            || queue@.poppable()),
{
}

/// A buffer is describable when the part of it that is shared lies within its
/// slice, and the lower 32 bits of its length are not all zero.
pub proof fn law_describable_buffer<'b>(buffer: VirtQueueBuffer<'b>, describable: bool)
    requires
        call_ensures(VirtQueueBuffer::is_describable, (&buffer,), describable),
    ensures
        describable <==> buffer.len <= old(buffer.buf.bytes)@.len() && buffer.len as int
            % 0x1_0000_0000 != 0,
{
    lemma_length_in_descriptor(buffer.len);
}

/// Zeroed memory is zero everywhere.
pub proof fn law_memory_begins_zeroed(
    descriptor: VirtQueueDescriptor,
    descriptors: VirtQueueDescriptors,
    available: VirtQueueAvailableRing,
    used: VirtQueueUsedRing,
    i: int,
)
    requires
        call_ensures(<VirtQueueDescriptor as Default>::default, (), descriptor),
        call_ensures(<VirtQueueDescriptors as Default>::default, (), descriptors),
        call_ensures(<VirtQueueAvailableRing as Default>::default, (), available),
        call_ensures(<VirtQueueUsedRing as Default>::default, (), used),
        0 <= i < 2,
    ensures
        descriptor == (VirtQueueDescriptor { addr: 0, len: 0, flags: 0, next: 0 }),
        descriptors.0@[i] == (VirtQueueDescriptor { addr: 0, len: 0, flags: 0, next: 0 }),
        available.flags == 0,
        available.idx == 0,
        available.ring@[i].0 == 0,
        available.used_event == 0,
        used.flags == 0,
        used.idx == 0,
        used.ring@[i].id == 0,
        used.ring@[i].len == 0,
        used.avail_event == 0,
{
}

} // verus!
