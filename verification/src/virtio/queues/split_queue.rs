//! The split virtqueue.

use crate::error::ErrorCode;
use crate::virtio::queues::layout::{
    SharedSlice, VirtQueueAvailableElement, VirtQueueAvailableRing, VirtQueueBuffer,
    VirtQueueDescriptor, VirtQueueDescriptors, VirtQueueUsedRing, AVAILABLE_RING_ALIGNMENT,
    DESCRIPTOR_ALIGNMENT, DESCRIPTOR_NEXT, DESCRIPTOR_WRITE_ONLY, QUEUE_MAX_ELEMENTS,
    USED_RING_ALIGNMENT,
};
use crate::virtio::queues::laws;
use crate::virtio::queues::lemmas;
use crate::virtio::queues::model;
use crate::virtio::queues::model::QueueView;
use crate::virtio::queues::ring::{AvailableRingHandler, RingView};
use crate::virtio::{QueueNotification, VirtIOTransport, VirtQueue, VirtQueueAddresses};
use vstd::prelude::*;

verus! {

/// A virtqueue of up to [`QUEUE_MAX_ELEMENTS`] elements in the split format.
///
/// The queue holds the contents of the memory that it shares with the device: what
/// the driver wrote there, and what the device was last found to have written.
pub struct SplitVirtQueue<'a, 'b> {
    descriptors: VirtQueueDescriptors,
    available_ring: VirtQueueAvailableRing,
    used_ring: VirtQueueUsedRing,
    available_ring_state: AvailableRingHandler,
    last_used_idx: u16,
    transport: Option<&'a dyn VirtIOTransport>,
    addresses: VirtQueueAddresses,
    initialized: bool,
    queue_number: u32,
    max_elements: usize,
    descriptor_buffers: [Option<SharedSlice<'b>>; QUEUE_MAX_ELEMENTS],
    client: Option<&'a dyn SplitVirtQueueClient<'b>>,
    used_callbacks_enabled: bool,
}

impl<'a, 'b> View for SplitVirtQueue<'a, 'b> {
    type V = QueueView<'a, 'b>;

    closed spec fn view(&self) -> QueueView<'a, 'b> {
        QueueView {
            descriptors: self.descriptors.0@,
            buffers: self.descriptor_buffers@,
            available: self.available_ring@,
            used: self.used_ring@,
            ring: self.available_ring_state@,
            last_used_idx: self.last_used_idx,
            addresses: self.addresses,
            initialized: self.initialized,
            queue_number: self.queue_number,
            max_elements: self.max_elements as nat,
            used_callbacks_enabled: self.used_callbacks_enabled,
            client: self.client,
            transport: self.transport,
        }
    }
}

impl<'a, 'b> SplitVirtQueue<'a, 'b> {
    /// The queue is in a consistent state.
    pub closed spec fn wf(&self) -> bool {
        &&& self.available_ring_state.wf()
        &&& self@.inv()
    }

    /// A consistent queue has the invariant of the model.
    pub proof fn lemma_wf_inv(&self)
        requires
            self.wf(),
        ensures
            self@.inv(),
    {
    }

    /// A queue with the given memory contents, which lie at `addresses`.
    pub fn new(
        descriptors: VirtQueueDescriptors,
        available_ring: VirtQueueAvailableRing,
        used_ring: VirtQueueUsedRing,
        addresses: VirtQueueAddresses,
    ) -> (queue: SplitVirtQueue<'a, 'b>)
        requires
            addresses.descriptor_area as int % DESCRIPTOR_ALIGNMENT as int == 0,
            addresses.driver_area as int % AVAILABLE_RING_ALIGNMENT as int == 0,
            addresses.device_area as int % USED_RING_ALIGNMENT as int == 0,
        ensures
            queue.wf(),
            queue@ == (QueueView {
                descriptors: descriptors.0@,
                buffers: Seq::new(QUEUE_MAX_ELEMENTS as nat, |i: int| None),
                available: available_ring@,
                used: used_ring@,
                ring: RingView { capacity: QUEUE_MAX_ELEMENTS as nat, start: 0, len: 0 },
                last_used_idx: 0,
                addresses,
                initialized: false,
                queue_number: 0,
                max_elements: QUEUE_MAX_ELEMENTS as nat,
                used_callbacks_enabled: false,
                client: None,
                transport: None,
            }),
    {
        let queue = SplitVirtQueue {
            descriptors,
            available_ring,
            used_ring,
            available_ring_state: AvailableRingHandler::new(QUEUE_MAX_ELEMENTS),
            last_used_idx: 0,
            transport: None,
            addresses,
            initialized: false,
            queue_number: 0,
            max_elements: QUEUE_MAX_ELEMENTS,
            descriptor_buffers: [None, None],
            client: None,
            used_callbacks_enabled: false,
        };
        proof {
            let none = Seq::new(QUEUE_MAX_ELEMENTS as nat, |i: int| None::<SharedSlice<'b>>);
            assert(queue.descriptor_buffers@ =~= none);
        }
        queue
    }

    /// Sets the client that used chains are passed on to.
    pub fn set_client(&mut self, client: &'a dyn SplitVirtQueueClient<'b>)
        requires
            old(self).wf(),
        ensures
            final(self).wf(),
            final(self)@.client == Some(client),
            final(self)@ == (QueueView { client: final(self)@.client, ..old(self)@ }),
    {
        let client = Some(client);
        self.client = client;
    }

    /// Sets the transport through which the device is notified.
    pub fn set_transport(&mut self, transport: &'a dyn VirtIOTransport)
        requires
            old(self).wf(),
        ensures
            final(self).wf(),
            final(self)@.transport == Some(transport),
            final(self)@ == (QueueView { transport: final(self)@.transport, ..old(self)@ }),
    {
        let transport = Some(transport);
        self.transport = transport;
    }

    /// Whether there is a transport through which the device is notified.
    pub fn has_transport(&self) -> (has: bool)
        ensures
            has == (self@.transport is Some),
    {
        self.transport.is_some()
    }

    /// Whether the queue was handed to the device.
    pub fn is_initialized(&self) -> (initialized: bool)
        ensures
            initialized == self@.initialized,
    {
        self.initialized
    }

    /// The contents of the descriptor table, for the device to read.
    pub fn descriptors(&self) -> (descriptors: &VirtQueueDescriptors)
        ensures
            descriptors.0@ == self@.descriptors,
    {
        &self.descriptors
    }

    /// The contents of the available ring, for the device to read.
    pub fn available_ring(&self) -> (available_ring: &VirtQueueAvailableRing)
        ensures
            available_ring@ == self@.available,
    {
        &self.available_ring
    }

    /// Takes note of what is in the descriptor table. The device is to read it
    /// only, but a descriptor that it returns counts as it then is.
    pub fn load_descriptors(&mut self, descriptors: VirtQueueDescriptors)
        requires
            old(self).wf(),
        ensures
            final(self).wf(),
            final(self)@ == (QueueView { descriptors: descriptors.0@, ..old(self)@ }),
    {
        self.descriptors = descriptors;
    }

    /// Takes note of what is in the available ring. The device is to read it
    /// only, but its index counts as it then is.
    pub fn load_available_ring(&mut self, available_ring: VirtQueueAvailableRing)
        requires
            old(self).wf(),
        ensures
            final(self).wf(),
            final(self)@ == (QueueView { available: available_ring@, ..old(self)@ }),
    {
        self.available_ring = available_ring;
    }

    /// Takes note of what the device wrote to the used ring.
    pub fn load_used_ring(&mut self, used_ring: VirtQueueUsedRing)
        requires
            old(self).wf(),
        ensures
            final(self).wf(),
            final(self)@ == (QueueView { used: used_ring@, ..old(self)@ }),
    {
        self.used_ring = used_ring;
    }

    /// Whether every position of the available ring is taken.
    ///
    /// As long as the device does not write to the descriptors, this is not so
    /// where a chain finds enough free descriptors.
    pub fn is_available_ring_full(&self) -> (full: bool)
        requires
            self.wf(),
        ensures
            full == self@.ring.full(),
    {
        self.available_ring_state.is_full()
    }

    /// The number under which the device knows the queue.
    pub fn queue_number(&self) -> (queue_number: u32)
        requires
            self@.initialized,
        ensures
            queue_number == self@.queue_number,
    {
        self.queue_number
    }

    /// The number of free descriptor slots in the descriptor table.
    ///
    /// This takes into account the negotiated queue size.
    pub fn free_descriptor_count(&self) -> (count: usize)
        requires
            self.wf(),
            self@.initialized,
        ensures
            count == self@.free_slots().len(),
    {
        let mut count: usize = 0;
        let mut i: usize = 0;
        while i < self.max_elements
            invariant
                i <= self.max_elements,
                self.max_elements <= QUEUE_MAX_ELEMENTS,
                count <= i,
                count == model::free_below(self@.buffers, i as nat).len(),
            decreases self.max_elements - i,
        {
            if self.descriptor_buffers[i].is_none() {
                count = count + 1;
            }
            i = i + 1;
        }
        count
    }

    /// The number of chains that the device returned and that were not
    /// processed yet.
    pub fn used_descriptor_chains_count(&self) -> (count: usize)
        requires
            self.wf(),
            self@.pending() <= self@.max_elements,
        ensures
            count == self@.pending(),
    {
        let pending_chains: u16 = self.used_ring.idx.wrapping_sub(self.last_used_idx);
        pending_chains as usize
    }

    /// Removes an element from the used ring of the device, if there is one.
    ///
    /// The caller is to free the entry of the available ring.
    fn remove_used_chain(&mut self) -> (used: Option<(usize, usize)>)
        requires
            old(self).wf(),
            old(self)@.initialized,
            old(self)@.pending() <= old(self)@.max_elements,
        ensures
            final(self).wf(),
            old(self)@.pending() == 0 ==> used is None && final(self)@ == old(self)@,
            old(self)@.pending() > 0 ==> {
                &&& used == Some(
                    (old(self)@.next_used().id as usize, old(self)@.next_used().len as usize),
                )
                &&& final(self)@ == old(self)@.used_taken()
            },
    {
        let pending_chains: usize = self.used_descriptor_chains_count();
        if pending_chains > 0 {
            let last_used_idx: u16 = self.last_used_idx;
            // The element at the index is the next one to be written, hence the
            // one at the last index is the next one to be read
            let ring_pos: usize = (last_used_idx as usize) % self.max_elements;
            let chain_top_idx: u32 = self.used_ring.ring[ring_pos].id;
            let written_len: u32 = self.used_ring.ring[ring_pos].len;
            self.last_used_idx = last_used_idx.wrapping_add(1);
            Some((chain_top_idx as usize, written_len as usize))
        } else {
            None
        }
    }

    /// Adds a chain to the available ring, and returns the position that it
    /// takes, if there is one left.
    ///
    /// The caller is to notify the device.
    fn add_available_descriptor(&mut self, descriptor_chain_head: usize) -> (pos: Option<usize>)
        requires
            old(self).wf(),
            old(self)@.initialized,
            old(self)@.max_elements > 0,
        ensures
            final(self).wf(),
            old(self)@.ring.full() ==> pos is None && final(self)@ == old(self)@,
            !old(self)@.ring.full() ==> {
                &&& pos is Some
                &&& pos->0 == old(self)@.ring.end()
                &&& laws::index_names_next_entry(old(self)@) ==> pos->0
                    == old(self)@.available.idx as int % old(self)@.max_elements as int
                &&& final(self)@ == old(self)@.with_available(descriptor_chain_head as int)
            },
    {
        match self.available_ring_state.insert() {
            Some(element_pos) => {
                self.available_ring.ring[element_pos as usize] = VirtQueueAvailableElement(
                    #[verifier::truncate]
                    (descriptor_chain_head as u16),
                );
                self.available_ring.idx = self.available_ring.idx.wrapping_add(1);
                Some(element_pos as usize)
            },
            None => None,
        }
    }

    /// Places the buffers of a chain in free descriptors, and returns the index
    /// of the first one.
    fn add_descriptor_chain(
        &mut self,
        buffer_chain: &mut [Option<VirtQueueBuffer<'b>>],
    ) -> (head: Result<usize, ErrorCode>)
        requires
            old(self).wf(),
            old(self)@.initialized,
            model::chain_len(old(buffer_chain)@) > 0,
            model::chain_len(old(buffer_chain)@) <= old(self)@.free_slots().len()
                ==> model::chain_describable(old(buffer_chain)@),
        ensures
            final(self).wf(),
            model::chain_len(old(buffer_chain)@) > old(self)@.free_slots().len() ==> {
                &&& head == Err::<usize, ErrorCode>(ErrorCode::NOMEM)
                &&& final(self)@ == old(self)@
                &&& final(buffer_chain)@ == old(buffer_chain)@
            },
            model::chain_len(old(buffer_chain)@) <= old(self)@.free_slots().len() ==> {
                &&& head is Ok
                &&& head->Ok_0 == old(self)@.free_slots()[0]
                &&& head->Ok_0 < QUEUE_MAX_ELEMENTS
                &&& final(self)@ == old(self)@.with_chain(old(buffer_chain)@)
                &&& final(buffer_chain)@ == model::emptied(old(buffer_chain)@)
            },
    {
        let ghost queue = self@;
        let ghost chain = buffer_chain@;

        // The length of the actual chain, until the first None
        let mut queue_length: usize = 0;
        while queue_length < buffer_chain.len() && buffer_chain[queue_length].is_some()
            invariant
                queue_length <= buffer_chain@.len(),
                forall|j: int| 0 <= j < queue_length ==> (#[trigger] buffer_chain@[j]) is Some,
            decreases buffer_chain@.len() - queue_length,
        {
            queue_length = queue_length + 1;
        }
        proof {
            lemmas::lemma_chain_len_is(chain, queue_length as nat);
        }

        // This takes into account the negotiated size, and only counts free
        // descriptors within it
        if self.free_descriptor_count() < queue_length {
            return Err(ErrorCode::NOMEM);
        }
        let ghost slots = queue.next_slots(queue_length as nat);
        proof {
            lemmas::lemma_free_below(queue.buffers, queue.max_elements);
            assert(forall|j: int|
                0 <= j < slots.len() ==> #[trigger] slots[j] == queue.free_slots()[j]);
            assert(queue.placed_descriptors(chain, slots.take(0)) =~= queue.descriptors);
            assert(queue.placed_buffers(chain, slots.take(0)) =~= queue.buffers);
        }

        // Walk over the descriptor table and the chain in parallel, inserting
        // where a descriptor is free
        let mut i: usize = 0;
        let mut previous_descriptor: Option<usize> = None;
        let mut head: Option<usize> = None;
        let mut k: usize = 0;
        while k < queue_length
            invariant
                k <= queue_length,
                queue_length == model::chain_len(chain),
                queue_length <= chain.len(),
                slots == queue.next_slots(queue_length as nat),
                slots.len() == queue_length,
                slots.no_duplicates(),
                forall|j: int|
                    0 <= j < slots.len() ==> {
                        &&& 0 <= #[trigger] slots[j] < queue.max_elements
                        &&& queue.buffers[slots[j]] is None
                    },
                forall|j: int, m: int|
                    0 <= j < m < slots.len() ==> #[trigger] slots[j] < #[trigger] slots[m],
                queue_length <= queue.free_slots().len(),
                queue.inv(),
                queue.initialized,
                self.available_ring_state.wf(),
                self@ == (QueueView {
                    descriptors: queue.placed_descriptors(chain, slots.take(k as int)),
                    buffers: queue.placed_buffers(chain, slots.take(k as int)),
                    ..queue
                }),
                forall|j: int| 0 <= j < queue_length ==> (#[trigger] chain[j]) is Some,
                model::chain_describable(chain),
                buffer_chain@.len() == chain.len(),
                forall|j: int| 0 <= j < k ==> (#[trigger] buffer_chain@[j]) is None,
                forall|j: int| k <= j < chain.len() ==> #[trigger] buffer_chain@[j] == chain[j],
                i == if k > 0 {
                    slots[k - 1] + 1
                } else {
                    0
                },
                previous_descriptor == if k > 0 {
                    Some(slots[k - 1] as usize)
                } else {
                    None
                },
                head == if k > 0 {
                    Some(slots[0] as usize)
                } else {
                    None
                },
            decreases queue_length - k,
        {
            // Take the buffer out of the chain of the caller
            let taken_queuebuf = buffer_chain[k].take().unwrap();
            proof {
                assert(taken_queuebuf == chain[k as int]->0);
                assert(!slots.take(k as int).contains(slots[k as int]));
            }
            while self.descriptor_buffers[i].is_some()
                invariant
                    i <= slots[k as int],
                    k > 0 ==> slots[k - 1] < i,
                    k < slots.len(),
                    slots[k as int] < QUEUE_MAX_ELEMENTS,
                    self@.buffers[slots[k as int]] is None,
                decreases slots[k as int] - i,
            {
                i = i + 1;
            }
            proof {
                assert(i == slots[k as int]) by {
                    lemmas::lemma_free_below(queue.buffers, queue.max_elements);
                    assert(queue.buffers[i as int] is None);
                    let m = queue.free_slots().index_of(i as int);
                    if m < k {
                        assert(slots.take(k as int)[m] == i);
                    }
                }
            }
            let ghost before = self@;

            // The first descriptor is the head of the chain
            if head.is_none() {
                head = Some(i);
            }
            let VirtQueueBuffer { buf, len, device_writable } = taken_queuebuf;

            // Write out the descriptor
            let next: u16 = self.descriptors.0[i].next;
            self.descriptors.0[i] = VirtQueueDescriptor {
                addr: buf.addr,
                len: #[verifier::truncate]
                (len as u32),
                flags: if device_writable {
                    DESCRIPTOR_WRITE_ONLY
                } else {
                    0
                },
                next,
            };

            // Store the full slice for reference
            self.descriptor_buffers[i] = Some(buf);

            // Chain the previous descriptor to this one
            match previous_descriptor {
                Some(prev_index) => {
                    let previous: VirtQueueDescriptor = self.descriptors.0[prev_index];
                    self.descriptors.0[prev_index] = VirtQueueDescriptor {
                        flags: previous.flags | DESCRIPTOR_NEXT,
                        next: i as u16,
                        ..previous
                    };
                },
                None => {
                },
            }
            proof {
                lemmas::lemma_place_one_more(queue, chain, slots, k as int);
                if k > 0 {
                    lemmas::lemma_index_of(slots.take(k as int), k - 1);
                    assert(before.descriptors[slots[k - 1]] == queue.placed_descriptor(
                        chain,
                        slots.take(k as int),
                        k - 1,
                    ));
                }
                assert(self@.descriptors =~= queue.placed_descriptors(
                    chain,
                    slots.take(k + 1),
                ));
                assert(self@.buffers =~= queue.placed_buffers(chain, slots.take(k + 1)));
            }

            // The next buffer goes behind this descriptor, which will
            // be chained to it
            previous_descriptor = Some(i);
            i = i + 1;
            k = k + 1;
        }
        proof {
            assert(slots.take(queue_length as int) =~= slots);
            assert(buffer_chain@ =~= model::emptied(chain));
            assert forall|j: int|
                0 <= j < QUEUE_MAX_ELEMENTS && (#[trigger] self@.buffers[j]) is Some implies {
                &&& self@.initialized
                &&& j < self@.max_elements
            } by {
                if !slots.contains(j) {
                    assert(queue.buffers[j] is Some);
                }
            }
        }
        Ok(head.unwrap())
    }

    /// Takes the chain that begins at the given descriptor out of the descriptor
    /// table, and returns its buffers.
    fn remove_descriptor_chain(
        &mut self,
        top_descriptor_index: usize,
    ) -> (chain: [Option<VirtQueueBuffer<'b>>; QUEUE_MAX_ELEMENTS])
        requires
            old(self).wf(),
            old(self)@.initialized,
            old(self)@.has_chain(top_descriptor_index as int),
        ensures
            final(self).wf(),
            chain@ == old(self)@.chain_buffers(
                old(self)@.chain_from(top_descriptor_index as int),
            ),
            final(self)@ == old(self)@.without_chain(
                old(self)@.chain_from(top_descriptor_index as int),
            ),
    {
        let ghost queue = self@;
        let ghost slots = queue.chain_from(top_descriptor_index as int);
        proof {
            lemmas::lemma_distinct_slots(slots, QUEUE_MAX_ELEMENTS as nat);
        }
        let mut res: [Option<VirtQueueBuffer<'b>>; QUEUE_MAX_ELEMENTS] = [None, None];
        let mut i: usize = 0;
        let mut next_index: Option<usize> = Some(top_descriptor_index);
        proof {
            assert(queue.without_chain(slots.take(0)).descriptors =~= queue.descriptors);
            assert(queue.without_chain(slots.take(0)).buffers =~= queue.buffers);
        }
        while next_index.is_some()
            invariant
                i <= slots.len(),
                slots.len() <= QUEUE_MAX_ELEMENTS,
                queue.is_chain(slots),
                queue.inv(),
                queue.initialized,
                self.available_ring_state.wf(),
                self@ == queue.without_chain(slots.take(i as int)),
                next_index == if i < slots.len() {
                    Some(slots[i as int] as usize)
                } else {
                    None
                },
                forall|k: int|
                    0 <= k < i ==> #[trigger] res@[k] == Some(queue.buffer_at(slots[k])),
                forall|k: int| i <= k < QUEUE_MAX_ELEMENTS ==> (#[trigger] res@[k]) is None,
            decreases slots.len() - i,
        {
            let ghost slot = slots[i as int];
            let current_index: usize = next_index.unwrap();
            proof {
                assert(!slots.take(i as int).contains(slot));
            }
            let current_desc: VirtQueueDescriptor = self.descriptors.0[current_index];

            // Check whether the chain goes on
            if current_desc.flags & DESCRIPTOR_NEXT != 0 {
                next_index = Some(current_desc.next as usize);
            } else {
                next_index = None;
            }

            // Recover the slice that was lent with this descriptor. The caller
            // may have provided a larger slice than what was shared with the
            // device, hence the length is returned along with it
            let supplied_slice = self.descriptor_buffers[current_index].take().unwrap();
            res[i] = Some(
                VirtQueueBuffer {
                    buf: supplied_slice,
                    len: current_desc.len as usize,
                    device_writable: current_desc.flags & DESCRIPTOR_WRITE_ONLY != 0,
                },
            );

            // Zero the descriptor
            self.descriptors.0[current_index] = VirtQueueDescriptor::default();
            proof {
                lemmas::lemma_remove_one_more(queue, slots, i as int);
                assert(self@.descriptors =~= queue.without_chain(slots.take(i + 1)).descriptors);
                assert(self@.buffers =~= queue.without_chain(slots.take(i + 1)).buffers);
            }
            i = i + 1;
        }
        proof {
            assert(slots.take(slots.len() as int) =~= slots);
            assert(res@ =~= queue.chain_buffers(slots));
        }
        res
    }

    /// Whether a chain begins at the given descriptor.
    fn is_chain_head(&self, head: usize) -> (is_head: bool)
        requires
            self.wf(),
        ensures
            is_head == self@.has_chain(head as int),
    {
        let ghost queue = self@;
        let ghost mut walked: Seq<int> = seq![head as int];
        let mut current: usize = head;
        let mut steps: usize = 0;
        while steps < QUEUE_MAX_ELEMENTS
            invariant
                queue == self@,
                queue.inv(),
                steps <= QUEUE_MAX_ELEMENTS,
                walked.len() == steps + 1,
                walked[0] == head,
                walked[steps as int] == current,
                lemmas::is_walk(queue, walked),
            decreases QUEUE_MAX_ELEMENTS - steps,
        {
            if current >= QUEUE_MAX_ELEMENTS {
                proof {
                    lemmas::lemma_walk_off_chain(queue, walked);
                }
                return false;
            }
            let in_place: bool = match &self.descriptor_buffers[current] {
                Some(supplied_slice) => supplied_slice.addr == self.descriptors.0[current].addr,
                None => false,
            };
            if !in_place {
                proof {
                    lemmas::lemma_walk_off_chain(queue, walked);
                }
                return false;
            }
            if self.descriptors.0[current].flags & DESCRIPTOR_NEXT == 0 {
                proof {
                    lemmas::lemma_walk_to_tail(queue, walked);
                    assert(queue.is_chain_from(head as int, walked));
                }
                return true;
            }
            current = self.descriptors.0[current].next as usize;
            steps = steps + 1;
            proof {
                walked = walked.push(current as int);
            }
        }
        proof {
            lemmas::lemma_walk_too_long(queue, walked);
        }
        false
    }

    /// Whether what the device wrote to the used ring can be processed: it did
    /// not overrun the driver, and it returned a chain that was lent to it.
    pub fn can_pop_used_descriptor_chain(&self) -> (can_pop: bool)
        requires
            self.wf(),
        ensures
            can_pop == self@.poppable(),
    {
        let pending_chains: usize = self.used_ring.idx.wrapping_sub(self.last_used_idx) as usize;
        if pending_chains > self.max_elements {
            false
        } else if pending_chains == 0 {
            true
        } else {
            let ring_pos: usize = (self.last_used_idx as usize) % self.max_elements;
            self.is_chain_head(self.used_ring.ring[ring_pos].id as usize)
        }
    }

    /// Shares a chain of buffers with the device.
    ///
    /// The buffers before the first `None` are taken out of `buffer_chain`, if
    /// there are enough free descriptors for them. The device is then to be
    /// notified.
    pub fn provide_buffer_chain(
        &mut self,
        buffer_chain: &mut [Option<VirtQueueBuffer<'b>>],
    ) -> (provided: Result<QueueNotification<'a>, ErrorCode>)
        requires
            old(self).wf(),
            old(self)@.initialized,
            model::chain_len(old(buffer_chain)@) > 0,
            model::chain_len(old(buffer_chain)@) <= old(self)@.free_slots().len() ==> {
                &&& model::chain_describable(old(buffer_chain)@)
                &&& !old(self)@.ring.full()
                &&& old(self)@.transport is Some
            },
        ensures
            final(self).wf(),
            model::chain_len(old(buffer_chain)@) > old(self)@.free_slots().len() ==> {
                &&& provided == Err::<QueueNotification<'a>, ErrorCode>(ErrorCode::NOMEM)
                &&& final(self)@ == old(self)@
                &&& final(buffer_chain)@ == old(buffer_chain)@
            },
            model::chain_len(old(buffer_chain)@) <= old(self)@.free_slots().len() ==> {
                &&& provided is Ok
                &&& provided->Ok_0 == (QueueNotification {
                    transport: old(self)@.transport->0,
                    queue_id: old(self)@.queue_number,
                })
                &&& final(self)@ == old(self)@.provided(old(buffer_chain)@)
                &&& final(buffer_chain)@ == model::emptied(old(buffer_chain)@)
            },
    {
        proof {
            lemmas::lemma_free_below(self@.buffers, self@.max_elements);
        }
        // If there are enough free descriptors, there is also a position left in
        // the available ring, unless the descriptors were tampered with
        let descriptor_chain_head: usize = match self.add_descriptor_chain(buffer_chain) {
            Ok(head) => head,
            Err(err) => {
                return Err(err);
            },
        };

        // Make the chain available to the device
        let pos = self.add_available_descriptor(descriptor_chain_head);
        assert(pos is Some);

        // The device is to be notified
        let transport = self.transport.unwrap();
        Ok(QueueNotification { transport, queue_id: self.queue_number })
    }

    /// Takes the next chain that the device returned, with the number of bytes
    /// that the device wrote to it.
    pub fn pop_used_descriptor_chain(&mut self) -> (used: Option<
        ([Option<VirtQueueBuffer<'b>>; QUEUE_MAX_ELEMENTS], usize),
    >)
        requires
            old(self).wf(),
            old(self)@.initialized,
            old(self)@.poppable(),
        ensures
            final(self).wf(),
            old(self)@.pending() == 0 ==> used is None && final(self)@ == old(self)@,
            old(self)@.pending() > 0 ==> {
                &&& used matches Some((chain, bytes_used)) && {
                    &&& chain@ == old(self)@.chain_buffers(
                        old(self)@.chain_from(old(self)@.next_used().id as int),
                    )
                    &&& bytes_used == old(self)@.next_used().len
                }
                &&& final(self)@ == old(self)@.popped()
            },
    {
        let ghost queue = self@;
        match self.remove_used_chain() {
            Some((descriptor_idx, bytes_used)) => {
                proof {
                    lemmas::lemma_used_taken_chains(queue, descriptor_idx as int);
                }
                let chain = self.remove_descriptor_chain(descriptor_idx);

                // One chain came back, so that another one can be made available
                // without overrunning the used ring
                let _ = self.available_ring_state.pop();
                Some((chain, bytes_used))
            },
            None => None,
        }
    }

    /// Whether used chains are passed on to the client.
    pub fn used_callbacks_enabled(&self) -> (enabled: bool)
        ensures
            enabled == self@.used_callbacks_enabled,
    {
        self.used_callbacks_enabled
    }

    /// Passes used chains on to the client from now on.
    pub fn enable_used_callbacks(&mut self)
        requires
            old(self).wf(),
        ensures
            final(self).wf(),
            final(self)@ == (QueueView { used_callbacks_enabled: true, ..old(self)@ }),
    {
        self.used_callbacks_enabled = true;
    }

    /// Leaves used chains in the used ring from now on.
    pub fn disable_used_callbacks(&mut self)
        requires
            old(self).wf(),
        ensures
            final(self).wf(),
            final(self)@ == (QueueView { used_callbacks_enabled: false, ..old(self)@ }),
    {
        self.used_callbacks_enabled = false;
    }
}

impl<'a, 'b> VirtQueue<'a, 'b> for SplitVirtQueue<'a, 'b> {
    open spec fn startable(&self) -> bool {
        self.wf() && !self@.initialized
    }

    open spec fn started(&self) -> bool {
        self.wf() && self@.initialized
    }

    open spec fn deliverable(&self) -> bool {
        &&& self.wf()
        &&& self@.initialized
        &&& self@.used_callbacks_enabled ==> self@.poppable()
    }

    /// Where the three parts of the queue lie.
    fn physical_addresses(&self) -> (addresses: VirtQueueAddresses)
        ensures
            addresses == self@.addresses,
    {
        self.addresses
    }

    /// Settles on the smaller one of the device's and the driver's queue size,
    /// and resets the available ring to it.
    fn negotiate_queue_size(&mut self, device_max_elements: usize) -> (negotiated: usize)
        ensures
            final(self).wf(),
            negotiated == if device_max_elements < QUEUE_MAX_ELEMENTS {
                device_max_elements
            } else {
                QUEUE_MAX_ELEMENTS
            },
            final(self)@ == (QueueView {
                max_elements: negotiated as nat,
                ring: RingView { capacity: negotiated as nat, start: 0, len: 0 },
                ..old(self)@
            }),
    {
        let negotiated: usize = if device_max_elements < QUEUE_MAX_ELEMENTS {
            device_max_elements
        } else {
            QUEUE_MAX_ELEMENTS
        };
        self.max_elements = negotiated;
        self.available_ring_state.reset(negotiated);
        negotiated
    }

    /// Starts operation under the given number. The memory of the queue is taken
    /// to be zeroed already.
    fn initialize(&mut self, queue_number: u32)
        ensures
            final(self).wf(),
            final(self)@ == (QueueView { queue_number, initialized: true, ..old(self)@ }),
    {
        self.queue_number = queue_number;
        self.initialized = true;
    }

    /// Takes the next used chain, unless used chains are not to be passed on.
    fn used_interrupt(&mut self) -> (used: Option<UsedChain<'a, 'b>>)
        ensures
            final(self).wf(),
            !old(self)@.used_callbacks_enabled || old(self)@.pending() == 0 ==> {
                &&& used is None
                &&& final(self)@ == old(self)@
            },
            old(self)@.used_callbacks_enabled && old(self)@.pending() > 0 ==> {
                &&& used matches Some(used) && {
                    &&& used.client == old(self)@.client
                    &&& used.queue_number == old(self)@.queue_number
                    &&& used.buffer_chain@ == old(self)@.chain_buffers(
                        old(self)@.chain_from(old(self)@.next_used().id as int),
                    )
                    &&& used.bytes_used == old(self)@.next_used().len
                }
                &&& final(self)@ == old(self)@.popped()
            },
    {
        if self.used_callbacks_enabled {
            match self.pop_used_descriptor_chain() {
                Some((buffer_chain, bytes_used)) => Some(
                    UsedChain {
                        client: self.client,
                        queue_number: self.queue_number,
                        buffer_chain,
                        bytes_used,
                    },
                ),
                None => None,
            }
        } else {
            None
        }
    }

    /// The negotiated queue size.
    fn negotiated_queue_size(&self) -> (negotiated: usize)
        ensures
            negotiated == self@.max_elements,
    {
        self.max_elements
    }
}

/// The user of a split virtqueue, to whom used chains are passed on.
pub trait SplitVirtQueueClient<'b> {
    /// Receives a chain that the device returned after it wrote `bytes_used`
    /// bytes to it.
    fn buffer_chain_ready(
        &self,
        queue_number: u32,
        buffer_chain: &mut [Option<VirtQueueBuffer<'b>>],
        bytes_used: usize,
    );
}

/// A chain that the device returned, and what the client is to be told of it.
///
/// Without a client, its buffers are lost.
pub struct UsedChain<'a, 'b> {
    pub client: Option<&'a dyn SplitVirtQueueClient<'b>>,
    pub queue_number: u32,
    pub buffer_chain: [Option<VirtQueueBuffer<'b>>; QUEUE_MAX_ELEMENTS],
    pub bytes_used: usize,
}

} // verus!
