//! What holds of a split virtqueue across operations.

use crate::virtio::queues::layout::{
    VirtQueueAvailableElement, VirtQueueBuffer, QUEUE_MAX_ELEMENTS,
};
use crate::virtio::queues::lemmas;
use crate::virtio::queues::model;
use crate::virtio::queues::model::QueueView;
use crate::virtio::queues::ring::RingView;
use vstd::prelude::*;

verus! {

/// The two queues have the same descriptors and slices in the given slots.
pub open spec fn agree_on(a: QueueView, b: QueueView, slots: Seq<int>) -> bool {
    &&& a.buffers.len() == b.buffers.len()
    &&& forall|k: int|
        0 <= k < slots.len() ==> {
            &&& a.descriptors[#[trigger] slots[k]] == b.descriptors[slots[k]]
            &&& a.buffers[slots[k]] == b.buffers[slots[k]]
        }
}

/// The descriptor table consists of exactly these chains, and each of them
/// takes a position of the available ring.
pub open spec fn outstanding(queue: QueueView, chains: Seq<Seq<int>>) -> bool {
    &&& queue.ring.len == chains.len()
    &&& forall|c: int| 0 <= c < chains.len() ==> queue.is_chain(#[trigger] chains[c])
    &&& forall|c: int, d: int, i: int|
        0 <= c < d < chains.len() && (#[trigger] chains[c].contains(i)) ==> !(
        #[trigger] chains[d].contains(i))
    &&& forall|i: int|
        0 <= i < queue.buffers.len() && (#[trigger] queue.buffers[i]) is Some ==> exists|c: int|
            0 <= c < chains.len() && #[trigger] chains[c].contains(i)
}

/// The device was told of as many chains as are out with it: the indices of
/// the available ring and of the last processed used element are as far apart
/// as positions are taken.
pub open spec fn in_step(queue: QueueView) -> bool {
    model::index_distance(queue.last_used_idx, queue.available.idx) == queue.ring.len
}

/// The index of the available ring, modulo the queue size, is where the driver
/// puts the next entry.
pub open spec fn index_names_next_entry(queue: QueueView) -> bool {
    queue.max_elements > 0 ==> queue.ring.end() as int == queue.available.idx as int
        % queue.max_elements as int
}

proof fn lemma_chain_from(queue: QueueView, slots: Seq<int>)
    requires
        queue.is_chain(slots),
    ensures
        queue.has_chain(slots[0]),
        queue.chain_from(slots[0]) == slots,
{
    assert(queue.is_chain_from(slots[0], slots));
    lemmas::lemma_chain_unique(queue, slots[0], slots, queue.chain_from(slots[0]));
}

/// A chain that was provided is found in the first free slots: each of its
/// buffers is described in one of them, in order, and lent with it.
pub proof fn law_provided_chain_is_described_in_order<'a, 'b>(
    queue: QueueView<'a, 'b>,
    chain: Seq<Option<VirtQueueBuffer<'b>>>,
)
    requires
        queue.inv(),
        queue.fits(chain),
    ensures
        ({
            let slots = queue.next_slots(model::chain_len(chain));
            let after = queue.provided(chain);
            &&& after.is_chain(slots)
            &&& forall|k: int|
                0 <= k < slots.len() ==> {
                    &&& after.descriptors[#[trigger] slots[k]] == queue.placed_descriptor(
                        chain,
                        slots,
                        k,
                    )
                    &&& after.buffers[slots[k]] == Some(chain[k]->0.buf)
                }
        }),
{
    let slots = queue.next_slots(model::chain_len(chain));
    let after = queue.provided(chain);
    lemmas::lemma_next_slots(queue, model::chain_len(chain));
    lemmas::lemma_descriptor_flags();
    assert forall|k: int| 0 <= k < slots.len() implies {
        &&& after.descriptors[#[trigger] slots[k]] == queue.placed_descriptor(chain, slots, k)
        &&& after.buffers[slots[k]] == Some(chain[k]->0.buf)
    } by {
        lemmas::lemma_index_of(slots, k);
    }
}

/// What a device returns is what it was lent: as long as nothing else touches
/// the descriptors that a chain was placed in, they lead from its head through
/// the whole chain, and the buffers that are taken from them are the buffers
/// that were provided, in the same order.
///
/// Lengths are 32 bit values in a descriptor, so that this is about buffers
/// whose length is one.
pub proof fn law_buffers_come_back_as_provided<'a, 'b>(
    queue: QueueView<'a, 'b>,
    chain: Seq<Option<VirtQueueBuffer<'b>>>,
    later: QueueView<'a, 'b>,
)
    requires
        queue.inv(),
        queue.fits(chain),
        forall|k: int|
            0 <= k < model::chain_len(chain) ==> (#[trigger] chain[k])->0.len <= u32::MAX,
        agree_on(later, queue.provided(chain), queue.next_slots(model::chain_len(chain))),
    ensures
        later.has_chain(queue.free_slots()[0]),
        later.chain_from(queue.free_slots()[0]) == queue.next_slots(model::chain_len(chain)),
        ({
            let back = later.chain_buffers(later.chain_from(queue.free_slots()[0]));
            &&& model::chain_len(back) == model::chain_len(chain)
            &&& forall|k: int|
                0 <= k < model::chain_len(chain) ==> #[trigger] back[k] == chain[k]
            &&& forall|k: int|
                model::chain_len(chain) <= k < QUEUE_MAX_ELEMENTS ==> (#[trigger] back[k]) is None
        }),
{
    let n = model::chain_len(chain);
    let slots = queue.next_slots(n);
    lemmas::lemma_next_slots(queue, n);
    law_provided_chain_is_described_in_order(queue, chain);
    lemmas::lemma_descriptor_flags();
    lemmas::lemma_chain_len(chain);
    assert(later.is_chain(slots));
    lemma_chain_from(later, slots);
    lemmas::lemma_distinct_slots(slots, QUEUE_MAX_ELEMENTS as nat);
    let back = later.chain_buffers(slots);
    assert forall|k: int| 0 <= k < n implies #[trigger] back[k] == chain[k] by {
        assert(slots[k] == slots[k]);
    }
    lemmas::lemma_chain_len_is(back, n);
}

/// Providing a chain leaves every other chain in the table as it was.
pub proof fn law_providing_keeps_other_chains<'a, 'b>(
    queue: QueueView<'a, 'b>,
    chain: Seq<Option<VirtQueueBuffer<'b>>>,
    other: Seq<int>,
)
    requires
        queue.inv(),
        queue.fits(chain),
        queue.is_chain(other),
    ensures
        agree_on(queue.provided(chain), queue, other),
        queue.provided(chain).is_chain(other),
        queue.provided(chain).chain_buffers(other) == queue.chain_buffers(other),
{
    let slots = queue.next_slots(model::chain_len(chain));
    let after = queue.provided(chain);
    lemmas::lemma_next_slots(queue, model::chain_len(chain));
    assert forall|k: int| 0 <= k < other.len() implies {
        &&& after.descriptors[#[trigger] other[k]] == queue.descriptors[other[k]]
        &&& after.buffers[other[k]] == queue.buffers[other[k]]
    } by {
        if slots.contains(other[k]) {
            assert(queue.buffers[slots[slots.index_of(other[k])]] is None);
        }
    }
    assert(after.chain_buffers(other) =~= queue.chain_buffers(other));
}

/// Taking a used chain leaves every other chain in the table as it was.
pub proof fn law_popping_keeps_other_chains<'a, 'b>(queue: QueueView<'a, 'b>, other: Seq<int>)
    requires
        queue.inv(),
        queue.poppable(),
        queue.pending() > 0,
        queue.is_chain(other),
        forall|k: int|
            0 <= k < other.len() ==> !queue.chain_from(queue.next_used().id as int).contains(
                #[trigger] other[k],
            ),
    ensures
        agree_on(queue.popped(), queue, other),
        queue.popped().is_chain(other),
        queue.popped().chain_buffers(other) == queue.chain_buffers(other),
{
    assert(queue.popped().chain_buffers(other) =~= queue.chain_buffers(other));
}

/// Taking a chain back after it was provided, once the device has returned it,
/// undoes the loan: the same slices are lent as before, so that the same
/// descriptors are free, and as many positions of the available ring are taken
/// as before.
pub proof fn law_popping_undoes_providing<'a, 'b>(
    queue: QueueView<'a, 'b>,
    chain: Seq<Option<VirtQueueBuffer<'b>>>,
    later: QueueView<'a, 'b>,
)
    requires
        queue.inv(),
        queue.fits(chain),
        later == (QueueView { used: later.used, ..queue.provided(chain) }),
        later.pending() > 0,
        later.next_used().id == queue.free_slots()[0],
    ensures
        later.popped().buffers == queue.buffers,
        later.popped().free_slots() == queue.free_slots(),
        later.popped().ring.len == queue.ring.len,
{
    let slots = queue.next_slots(model::chain_len(chain));
    lemmas::lemma_next_slots(queue, model::chain_len(chain));
    law_provided_chain_is_described_in_order(queue, chain);
    assert(later.is_chain(slots));
    lemma_chain_from(later, slots);
    assert forall|i: int| 0 <= i < queue.buffers.len() implies #[trigger] later.popped().buffers[i]
        == queue.buffers[i] by {
        if slots.contains(i) {
            assert(queue.buffers[slots[slots.index_of(i)]] is None);
        }
    }
    assert(later.popped().buffers =~= queue.buffers);
}

/// The descriptors of a chain that was taken back are zeroed and free again.
pub proof fn law_popped_descriptors_are_free<'a, 'b>(queue: QueueView<'a, 'b>, i: int)
    requires
        queue.inv(),
        queue.poppable(),
        queue.pending() > 0,
        queue.chain_from(queue.next_used().id as int).contains(i),
    ensures
        queue.popped().descriptors[i] == crate::virtio::queues::layout::VirtQueueDescriptor::zero(),
        queue.popped().free_slots().contains(i),
{
    let slots = queue.chain_from(queue.next_used().id as int);
    assert(queue.is_chain_from(queue.next_used().id as int, slots));
    assert(slots[slots.index_of(i)] == i);
    assert(queue.buffers[i] is Some);
    lemmas::lemma_free_below(queue.popped().buffers, queue.max_elements);
    assert(queue.popped().buffers[i] is None);
}

/// If there is sufficient space for a chain in the descriptor table, there is
/// also a position left for it in the available ring, as long as nobody but the
/// driver writes to the descriptors.
pub proof fn law_available_ring_has_room_for_what_fits<'a, 'b>(
    queue: QueueView<'a, 'b>,
    chain: Seq<Option<VirtQueueBuffer<'b>>>,
)
    requires
        queue.inv(),
        queue.intact(),
        queue.fits(chain),
    ensures
        !queue.ring.full(),
        queue.ring.end() < queue.max_elements,
{
    lemmas::lemma_tails_and_free_slots(queue.descriptors, queue.buffers, queue.max_elements);
}

/// Providing a chain and taking one back are no reason for the descriptor table to
/// be intact no more.
pub proof fn law_table_stays_intact<'a, 'b>(
    queue: QueueView<'a, 'b>,
    chain: Seq<Option<VirtQueueBuffer<'b>>>,
)
    requires
        queue.inv(),
        queue.intact(),
    ensures
        queue.fits(chain) ==> queue.provided(chain).intact(),
        queue.poppable() && queue.pending() > 0 ==> queue.popped().intact(),
{
    if queue.fits(chain) {
        let n = model::chain_len(chain);
        let slots = queue.next_slots(n);
        let after = queue.provided(chain);
        lemmas::lemma_next_slots(queue, n);
        lemmas::lemma_tails_placed(queue, chain, slots, n);
        assert(slots.take(n as int) =~= slots);
        assert forall|i: int|
            0 <= i < after.buffers.len() && (
            #[trigger] after.buffers[i]) is Some implies after.descriptors[i].addr
            == after.buffers[i]->0.addr by {
            if slots.contains(i) {
                lemmas::lemma_index_of(slots, slots.index_of(i));
            } else {
                assert(queue.buffers[i] is Some);
            }
        }
    }
    if queue.poppable() && queue.pending() > 0 {
        let head = queue.next_used().id as int;
        let slots = queue.chain_from(head);
        assert(queue.is_chain_from(head, slots));
        lemmas::lemma_tails_removed(queue, slots, slots.len());
        assert(slots.take(slots.len() as int) =~= slots);
        assert forall|i: int|
            0 <= i < queue.buffers.len() && (
            #[trigger] queue.popped().buffers[i]) is Some implies queue.popped().descriptors[i].addr
            == queue.popped().buffers[i]->0.addr by {
            assert(queue.buffers[i] is Some);
        }
    }
}

/// Every chain that is taken brings the end of the used ring closer, so that an
/// interrupt is served after as many chains as are pending.
pub proof fn law_popping_makes_progress<'a, 'b>(queue: QueueView<'a, 'b>)
    requires
        queue.pending() > 0,
    ensures
        queue.popped().pending() == queue.pending() - 1,
{
}

/// A queue that nothing was lent to has no outstanding chains and an intact table,
/// and its indices are in step if its memory was zeroed.
pub proof fn law_new_queue_has_no_outstanding_chains<'a, 'b>(queue: QueueView<'a, 'b>)
    requires
        queue.inv(),
        !queue.initialized,
    ensures
        outstanding(queue, Seq::empty()),
        queue.intact(),
        queue.available.idx == queue.last_used_idx ==> in_step(queue),
{
    assert forall|i: int| 0 <= i < queue.buffers.len() implies (
    #[trigger] queue.buffers[i]) is None by {
        if queue.buffers[i] is Some {
            assert(queue.initialized);
        }
    }
    lemmas::lemma_no_tails(queue.descriptors, queue.buffers, queue.max_elements);
}

/// A chain that is provided is outstanding from then on, beside all that were
/// before.
pub proof fn law_provided_chain_is_outstanding<'a, 'b>(
    queue: QueueView<'a, 'b>,
    chains: Seq<Seq<int>>,
    chain: Seq<Option<VirtQueueBuffer<'b>>>,
)
    requires
        queue.inv(),
        outstanding(queue, chains),
        queue.fits(chain),
    ensures
        outstanding(
            queue.provided(chain),
            chains.push(queue.next_slots(model::chain_len(chain))),
        ),
{
    let slots = queue.next_slots(model::chain_len(chain));
    let after = queue.provided(chain);
    let all = chains.push(slots);
    lemmas::lemma_next_slots(queue, model::chain_len(chain));
    law_provided_chain_is_described_in_order(queue, chain);
    assert forall|c: int| 0 <= c < all.len() implies after.is_chain(#[trigger] all[c]) by {
        if c < chains.len() {
            assert(all[c] == chains[c]);
            law_providing_keeps_other_chains(queue, chain, chains[c]);
        }
    }
    assert forall|c: int, d: int, i: int|
        0 <= c < d < all.len() && (#[trigger] all[c].contains(i)) implies !(
    #[trigger] all[d].contains(i)) by {
        assert(all[c] == chains[c]);
        if d == chains.len() {
            assert(queue.is_chain(chains[c]));
            let k = chains[c].index_of(i);
            assert(chains[c][k] == i);
            assert(queue.buffers[i] is Some);
            if slots.contains(i) {
                assert(queue.buffers[slots[slots.index_of(i)]] is None);
            }
        } else {
            assert(all[d] == chains[d]);
        }
    }
    assert forall|i: int|
        0 <= i < after.buffers.len() && (#[trigger] after.buffers[i]) is Some implies exists|
        c: int,
    | 0 <= c < all.len() && #[trigger] all[c].contains(i) by {
        if slots.contains(i) {
            assert(all[chains.len() as int].contains(i));
        } else {
            assert(queue.buffers[i] is Some);
            let c = choose|c: int| 0 <= c < chains.len() && #[trigger] chains[c].contains(i);
            assert(all[c].contains(i));
        }
    }
}

/// A device that returns outstanding chains by their heads can always be served:
/// the element that it wrote names a chain, namely that one.
pub proof fn law_outstanding_chain_can_be_popped<'a, 'b>(
    queue: QueueView<'a, 'b>,
    chains: Seq<Seq<int>>,
    c: int,
)
    requires
        queue.inv(),
        outstanding(queue, chains),
        0 <= c < chains.len(),
        0 < queue.pending() <= queue.max_elements,
        queue.next_used().id == chains[c][0],
    ensures
        queue.poppable(),
        queue.chain_from(queue.next_used().id as int) == chains[c],
{
    lemma_chain_from(queue, chains[c]);
}

/// The chain that is taken back is outstanding no more; all others stay.
pub proof fn law_popped_chain_is_settled<'a, 'b>(
    queue: QueueView<'a, 'b>,
    chains: Seq<Seq<int>>,
    c: int,
)
    requires
        queue.inv(),
        outstanding(queue, chains),
        0 <= c < chains.len(),
        0 < queue.pending() <= queue.max_elements,
        queue.next_used().id == chains[c][0],
    ensures
        outstanding(queue.popped(), chains.remove(c)),
{
    let after = queue.popped();
    let rest = chains.remove(c);
    law_outstanding_chain_can_be_popped(queue, chains, c);
    assert forall|d: int| 0 <= d < rest.len() implies after.is_chain(#[trigger] rest[d]) by {
        let e = if d < c {
            d
        } else {
            d + 1
        };
        assert(rest[d] == chains[e]);
        assert forall|k: int| 0 <= k < chains[e].len() implies !chains[c].contains(
            #[trigger] chains[e][k],
        ) by {
            assert(chains[e].contains(chains[e][k]));
        }
        law_popping_keeps_other_chains(queue, chains[e]);
    }
    assert forall|d: int, e: int, i: int|
        0 <= d < e < rest.len() && (#[trigger] rest[d].contains(i)) implies !(
    #[trigger] rest[e].contains(i)) by {
        let d0 = if d < c {
            d
        } else {
            d + 1
        };
        let e0 = if e < c {
            e
        } else {
            e + 1
        };
        assert(rest[d] == chains[d0]);
        assert(rest[e] == chains[e0]);
    }
    assert forall|i: int|
        0 <= i < after.buffers.len() && (#[trigger] after.buffers[i]) is Some implies exists|
        d: int,
    | 0 <= d < rest.len() && #[trigger] rest[d].contains(i) by {
        assert(queue.buffers[i] is Some);
        let e = choose|e: int| 0 <= e < chains.len() && #[trigger] chains[e].contains(i);
        let d = if e < c {
            e
        } else {
            e - 1
        };
        assert(e != c);
        assert(rest[d] == chains[e]);
        assert(rest[d].contains(i));
    }
}

/// Providing a chain, and taking one back that was available, keeps the indices
/// of the available ring and of the processed used elements in step.
pub proof fn law_indices_stay_in_step<'a, 'b>(
    queue: QueueView<'a, 'b>,
    chain: Seq<Option<VirtQueueBuffer<'b>>>,
)
    requires
        queue.inv(),
        in_step(queue),
    ensures
        queue.fits(chain) && !queue.ring.full() ==> in_step(queue.provided(chain)),
        queue.ring.len > 0 ==> in_step(queue.popped()),
{
}

/// In a queue over a zeroed available ring, of whatever size it is negotiated to
/// be, the index names the next entry from the beginning.
pub proof fn law_index_names_first_entry<'a, 'b>(
    queue: QueueView<'a, 'b>,
    negotiated: nat,
    queue_number: u32,
)
    requires
        queue.inv(),
        !queue.initialized,
        queue.available.idx == 0,
    ensures
        index_names_next_entry(queue),
        index_names_next_entry(
            QueueView {
                max_elements: negotiated,
                ring: RingView { capacity: negotiated, start: 0, len: 0 },
                initialized: true,
                queue_number,
                ..queue
            },
        ),
{
    assert(queue.max_elements > 0 ==> 0int % queue.max_elements as int == 0) by (nonlinear_arith);
    assert(negotiated > 0 ==> 0int % negotiated as int == 0) by (nonlinear_arith);
}

/// Making a chain available writes its head to the entry that the index names,
/// and moves the index, wrapping round, on to the next entry. Nothing else in the
/// available ring changes, nor anything outside of it but which positions are
/// taken.
pub proof fn law_available_chain_goes_where_index_says<'a, 'b>(
    queue: QueueView<'a, 'b>,
    head: int,
)
    requires
        queue.inv(),
        queue.max_elements > 0,
        !queue.ring.full(),
        index_names_next_entry(queue),
    ensures
        ({
            let entry = queue.available.idx as int % queue.max_elements as int;
            let after = queue.with_available(head);
            &&& 0 <= entry < queue.max_elements
            &&& after.available.ring.len() == queue.available.ring.len()
            &&& after.available.ring[entry] == VirtQueueAvailableElement(head as u16)
            &&& forall|i: int|
                0 <= i < queue.available.ring.len() && i != entry
                    ==> #[trigger] after.available.ring[i] == queue.available.ring[i]
            &&& after.available.idx == queue.available.idx.wrapping_add(1)
            &&& after.available.flags == queue.available.flags
            &&& after.available.used_event == queue.available.used_event
            &&& after == (QueueView { available: after.available, ring: after.ring, ..queue })
            &&& index_names_next_entry(after)
        }),
{
    let idx = queue.available.idx as int;
    let next = model::next_index(queue.available.idx) as int;
    let size = queue.max_elements as int;
    // Both queue sizes divide the range of the index
    if size == 1 {
        assert(idx % size == 0 && next % size == 0);
    } else {
        assert(size == 2);
        assert(idx % size == idx % 2 && next % size == next % 2);
        assert(next % 2 == 1 - idx % 2);
    }
    assert(index_names_next_entry(queue.with_available(head)));
}

/// Providing a chain writes the descriptor that it begins at to the entry that the
/// index of the available ring names, and whether a chain is provided or taken
/// back, the index goes on to name the next entry.
pub proof fn law_index_keeps_naming_next_entry<'a, 'b>(
    queue: QueueView<'a, 'b>,
    chain: Seq<Option<VirtQueueBuffer<'b>>>,
)
    requires
        queue.inv(),
        index_names_next_entry(queue),
    ensures
        queue.fits(chain) && !queue.ring.full() ==> {
            let after = queue.provided(chain);
            &&& after.available.ring[queue.available.idx as int % queue.max_elements as int]
                == VirtQueueAvailableElement(queue.free_slots()[0] as u16)
            &&& after.available.idx == queue.available.idx.wrapping_add(1)
            &&& index_names_next_entry(after)
        },
        index_names_next_entry(queue.popped()),
{
    if queue.fits(chain) && !queue.ring.full() {
        lemmas::lemma_free_below(queue.buffers, queue.max_elements);
        law_available_chain_goes_where_index_says(queue, queue.free_slots()[0]);
    }
}

/// A device that returns no more chains than it was given does not overrun the
/// driver.
pub proof fn law_returning_what_was_available_does_not_overrun<'a, 'b>(queue: QueueView<'a, 'b>)
    requires
        queue.inv(),
        in_step(queue),
        queue.pending() <= model::index_distance(queue.last_used_idx, queue.available.idx),
    ensures
        queue.pending() <= queue.max_elements,
{
}

} // verus!
