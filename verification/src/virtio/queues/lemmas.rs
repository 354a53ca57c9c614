//! Facts about free slots, chains and their lengths that the queue operations
//! rest on.

use crate::virtio::queues::layout::{
    SharedSlice, VirtQueueBuffer, VirtQueueDescriptor, DESCRIPTOR_NEXT, DESCRIPTOR_WRITE_ONLY,
};
use crate::virtio::queues::model;
use crate::virtio::queues::model::QueueView;
use vstd::prelude::*;

verus! {

/// The free slots below a limit are what they are called, in ascending order.
pub(crate) proof fn lemma_free_below<'b>(buffers: Seq<Option<SharedSlice<'b>>>, limit: nat)
    ensures
        model::free_below(buffers, limit).len() <= limit,
        forall|k: int|
            0 <= k < model::free_below(buffers, limit).len() ==> {
                &&& 0 <= #[trigger] model::free_below(buffers, limit)[k] < limit
                &&& buffers[model::free_below(buffers, limit)[k]] is None
            },
        forall|j: int, k: int|
            0 <= j < k < model::free_below(buffers, limit).len() ==> #[trigger] model::free_below(
                buffers,
                limit,
            )[j] < #[trigger] model::free_below(buffers, limit)[k],
        forall|i: int|
            0 <= i < limit && (#[trigger] buffers[i]) is None ==> model::free_below(
                buffers,
                limit,
            ).contains(i),
    decreases limit,
{
    if limit > 0 {
        let below = model::free_below(buffers, (limit - 1) as nat);
        lemma_free_below(buffers, (limit - 1) as nat);
        assert forall|i: int| 0 <= i < limit && (#[trigger] buffers[i]) is None implies model::free_below(
            buffers,
            limit,
        ).contains(i) by {
            if i == limit - 1 {
                assert(model::free_below(buffers, limit)[below.len() as int] == i);
            } else {
                let k = below.index_of(i);
                assert(below[k] == i);
                assert(model::free_below(buffers, limit)[k] == i);
            }
        }
    }
}

/// A slot is free or occupied, so that free slots and last descriptors are no
/// more than there are slots.
pub(crate) proof fn lemma_tails_and_free_slots<'b>(
    descriptors: Seq<VirtQueueDescriptor>,
    buffers: Seq<Option<SharedSlice<'b>>>,
    limit: nat,
)
    ensures
        model::tails_below(descriptors, buffers, limit) + model::free_below(buffers, limit).len() <= limit,
    decreases limit,
{
    if limit > 0 {
        lemma_tails_and_free_slots(descriptors, buffers, (limit - 1) as nat);
    }
}

/// Changing slots at or above the limit changes nothing below it.
pub(crate) proof fn lemma_tails_same<'b>(
    descriptors: Seq<VirtQueueDescriptor>,
    buffers: Seq<Option<SharedSlice<'b>>>,
    other_descriptors: Seq<VirtQueueDescriptor>,
    other_buffers: Seq<Option<SharedSlice<'b>>>,
    limit: nat,
)
    requires
        forall|i: int|
            0 <= i < limit ==> model::is_tail(descriptors, buffers, i) == #[trigger] model::is_tail(
                other_descriptors,
                other_buffers,
                i,
            ),
    ensures
        model::tails_below(descriptors, buffers, limit) == model::tails_below(
            other_descriptors,
            other_buffers,
            limit,
        ),
    decreases limit,
{
    if limit > 0 {
        lemma_tails_same(
            descriptors,
            buffers,
            other_descriptors,
            other_buffers,
            (limit - 1) as nat,
        );
        assert(model::is_tail(descriptors, buffers, limit - 1) == model::is_tail(
            other_descriptors,
            other_buffers,
            limit - 1,
        ));
    }
}

/// Where one slot changes, the number of last descriptors changes by what
/// happened to that slot.
pub(crate) proof fn lemma_tails_one_slot<'b>(
    descriptors: Seq<VirtQueueDescriptor>,
    buffers: Seq<Option<SharedSlice<'b>>>,
    other_descriptors: Seq<VirtQueueDescriptor>,
    other_buffers: Seq<Option<SharedSlice<'b>>>,
    slot: int,
    limit: nat,
)
    requires
        0 <= slot < limit,
        forall|i: int|
            0 <= i < limit && i != slot ==> model::is_tail(descriptors, buffers, i) == #[trigger] model::is_tail(
                other_descriptors,
                other_buffers,
                i,
            ),
    ensures
        model::tails_below(other_descriptors, other_buffers, limit) == model::tails_below(
            descriptors,
            buffers,
            limit,
        ) - (if model::is_tail(descriptors, buffers, slot) {
            1int
        } else {
            0int
        }) + (if model::is_tail(other_descriptors, other_buffers, slot) {
            1int
        } else {
            0int
        }),
    decreases limit,
{
    if slot == limit - 1 {
        lemma_tails_same(
            descriptors,
            buffers,
            other_descriptors,
            other_buffers,
            (limit - 1) as nat,
        );
    } else {
        lemma_tails_one_slot(
            descriptors,
            buffers,
            other_descriptors,
            other_buffers,
            slot,
            (limit - 1) as nat,
        );
        assert(model::is_tail(descriptors, buffers, limit - 1) == model::is_tail(
            other_descriptors,
            other_buffers,
            limit - 1,
        ));
    }
}

/// Without buffers there are no chains.
pub(crate) proof fn lemma_no_tails<'b>(
    descriptors: Seq<VirtQueueDescriptor>,
    buffers: Seq<Option<SharedSlice<'b>>>,
    limit: nat,
)
    requires
        forall|i: int| 0 <= i < limit ==> (#[trigger] buffers[i]) is None,
    ensures
        model::tails_below(descriptors, buffers, limit) == 0,
    decreases limit,
{
    if limit > 0 {
        lemma_no_tails(descriptors, buffers, (limit - 1) as nat);
    }
}

/// The buffers of a chain are those before the first `None`.
pub(crate) proof fn lemma_chain_len<'b>(chain: Seq<Option<VirtQueueBuffer<'b>>>)
    ensures
        model::chain_len(chain) <= chain.len(),
        forall|k: int| 0 <= k < model::chain_len(chain) ==> (#[trigger] chain[k]) is Some,
        model::chain_len(chain) < chain.len() ==> chain[model::chain_len(chain) as int] is None,
    decreases chain.len(),
{
    if chain.len() > 0 && chain[0] is Some {
        let rest = chain.skip(1);
        lemma_chain_len(rest);
        assert forall|k: int| 0 <= k < model::chain_len(chain) implies (#[trigger] chain[k]) is Some by {
            if k > 0 {
                assert(rest[k - 1] == chain[k]);
            }
        }
        if model::chain_len(chain) < chain.len() {
            assert(rest[model::chain_len(rest) as int] == chain[model::chain_len(chain) as int]);
        }
    }
}

/// What has buffers up to `n` and then none is a chain of `n` buffers.
pub(crate) proof fn lemma_chain_len_is<'b>(chain: Seq<Option<VirtQueueBuffer<'b>>>, n: nat)
    requires
        n <= chain.len(),
        forall|k: int| 0 <= k < n ==> (#[trigger] chain[k]) is Some,
        n < chain.len() ==> chain[n as int] is None,
    ensures
        model::chain_len(chain) == n,
{
    lemma_chain_len(chain);
}

/// A sequence of distinct slots is no longer than there are slots.
pub(crate) proof fn lemma_distinct_slots(slots: Seq<int>, limit: nat)
    requires
        slots.no_duplicates(),
        forall|k: int| 0 <= k < slots.len() ==> 0 <= #[trigger] slots[k] < limit,
    ensures
        slots.len() <= limit,
    decreases limit,
{
    if limit == 0 {
        if slots.len() > 0 {
            assert(0 <= slots[0] < limit);
        }
    } else if slots.contains(limit - 1) {
        let k = slots.index_of(limit - 1);
        let rest = slots.remove(k);
        assert forall|j: int| 0 <= j < rest.len() implies 0 <= #[trigger] rest[j] < limit - 1 by {
            if j < k {
                assert(rest[j] == slots[j]);
            } else {
                assert(rest[j] == slots[j + 1]);
            }
        }
        assert(rest.no_duplicates());
        lemma_distinct_slots(rest, (limit - 1) as nat);
    } else {
        assert forall|j: int| 0 <= j < slots.len() implies 0 <= #[trigger] slots[j] < limit - 1 by {
            assert(slots.contains(slots[j]));
        }
        lemma_distinct_slots(slots, (limit - 1) as nat);
    }
}

/// Two chains from the same slot go through the same slots.
pub(crate) proof fn lemma_chain_unique(queue: QueueView, head: int, a: Seq<int>, b: Seq<int>)
    requires
        queue.is_chain_from(head, a),
        queue.is_chain_from(head, b),
    ensures
        a == b,
{
    lemma_chain_prefix(queue, a, b, (a.len() - 1) as nat);
    lemma_chain_prefix(queue, b, a, (b.len() - 1) as nat);
    assert(a.len() == b.len());
    assert forall|k: int| 0 <= k < a.len() implies a[k] == b[k] by {
        lemma_chain_prefix(queue, a, b, k as nat);
    }
    assert(a =~= b);
}

proof fn lemma_chain_prefix(queue: QueueView, a: Seq<int>, b: Seq<int>, k: nat)
    requires
        queue.is_chain(a),
        queue.is_chain(b),
        a[0] == b[0],
        k < a.len(),
    ensures
        k < b.len(),
        a[k as int] == b[k as int],
    decreases k,
{
    if k > 0 {
        lemma_chain_prefix(queue, a, b, (k - 1) as nat);
        assert(queue.descriptors[a[k - 1]].has_next());
        assert(queue.descriptors[b[k - 1]].has_next());
    }
}

/// What the flags of a descriptor say.
pub(crate) proof fn lemma_descriptor_flags()
    ensures
        0u16 & DESCRIPTOR_NEXT == 0,
        0u16 & DESCRIPTOR_WRITE_ONLY == 0,
        DESCRIPTOR_WRITE_ONLY & DESCRIPTOR_NEXT == 0,
        DESCRIPTOR_WRITE_ONLY & DESCRIPTOR_WRITE_ONLY != 0,
        (0u16 | DESCRIPTOR_NEXT) & DESCRIPTOR_NEXT != 0,
        (0u16 | DESCRIPTOR_NEXT) & DESCRIPTOR_WRITE_ONLY == 0,
        (DESCRIPTOR_WRITE_ONLY | DESCRIPTOR_NEXT) & DESCRIPTOR_NEXT != 0,
        (DESCRIPTOR_WRITE_ONLY | DESCRIPTOR_NEXT) & DESCRIPTOR_WRITE_ONLY != 0,
{
    assert(0u16 & 1 == 0) by (bit_vector);
    assert(0u16 & 2 == 0) by (bit_vector);
    assert(2u16 & 1 == 0) by (bit_vector);
    assert(2u16 & 2 != 0) by (bit_vector);
    assert((0u16 | 1) & 1 != 0) by (bit_vector);
    assert((0u16 | 1) & 2 == 0) by (bit_vector);
    assert((2u16 | 1) & 1 != 0) by (bit_vector);
    assert((2u16 | 1) & 2 != 0) by (bit_vector);
}

/// In a sequence without duplicates, every element is found where it stands.
pub(crate) proof fn lemma_index_of(slots: Seq<int>, k: int)
    requires
        slots.no_duplicates(),
        0 <= k < slots.len(),
    ensures
        slots.contains(slots[k]),
        slots.index_of(slots[k]) == k,
{
}

/// Placing one more buffer of a chain fills one more slot, and links the slot
/// before it.
pub(crate) proof fn lemma_place_one_more<'a, 'b>(
    queue: QueueView<'a, 'b>,
    chain: Seq<Option<VirtQueueBuffer<'b>>>,
    slots: Seq<int>,
    k: int,
)
    requires
        0 <= k < slots.len(),
        slots.no_duplicates(),
        forall|j: int|
            0 <= j < slots.len() ==> 0 <= #[trigger] slots[j] < queue.descriptors.len(),
        queue.descriptors.len() == queue.buffers.len(),
    ensures
        queue.placed_buffers(chain, slots.take(k + 1)) == queue.placed_buffers(
            chain,
            slots.take(k),
        ).update(slots[k], Some(chain[k]->0.buf)),
        queue.placed_descriptors(chain, slots.take(k + 1)) == {
            let table = queue.placed_descriptors(chain, slots.take(k)).update(
                slots[k],
                queue.placed_descriptor(chain, slots.take(k + 1), k),
            );
            if k == 0 {
                table
            } else {
                table.update(
                    slots[k - 1],
                    queue.placed_descriptor(chain, slots.take(k + 1), k - 1),
                )
            }
        },
{
    let before = slots.take(k);
    let after = slots.take(k + 1);
    assert forall|i: int| #[trigger] after.contains(i) implies i == slots[k] || before.contains(
        i,
    ) by {
        let j = after.index_of(i);
        assert(after[j] == i);
        if j < k {
            assert(before[j] == i);
        }
    }
    assert forall|j: int| 0 <= j < k implies {
        &&& before.contains(#[trigger] slots[j])
        &&& before.index_of(slots[j]) == j
        &&& after.contains(slots[j])
        &&& after.index_of(slots[j]) == j
    } by {
        assert(before[j] == slots[j]);
        assert(after[j] == slots[j]);
        lemma_index_of(before, j);
        lemma_index_of(after, j);
    }
    assert(after[k] == slots[k]);
    lemma_index_of(after, k);
    assert(!before.contains(slots[k]));
    assert(queue.placed_buffers(chain, after) =~= queue.placed_buffers(chain, before).update(
        slots[k],
        Some(chain[k]->0.buf),
    )) by {
        assert forall|i: int| 0 <= i < queue.buffers.len() implies #[trigger] queue.placed_buffers(
            chain,
            after,
        )[i] == queue.placed_buffers(chain, before).update(slots[k], Some(chain[k]->0.buf))[i] by {
            if before.contains(i) {
                assert(slots[before.index_of(i)] == i);
            }
        }
    }
    let table = queue.placed_descriptors(chain, before).update(
        slots[k],
        queue.placed_descriptor(chain, after, k),
    );
    let linked = if k == 0 {
        table
    } else {
        table.update(slots[k - 1], queue.placed_descriptor(chain, after, k - 1))
    };
    assert forall|i: int|
        0 <= i < queue.descriptors.len() implies #[trigger] queue.placed_descriptors(
        chain,
        after,
    )[i] == linked[i] by {
        if before.contains(i) {
            let j = before.index_of(i);
            assert(slots[j] == i);
            if j < k - 1 {
                assert(before[j + 1] == after[j + 1]);
            }
        }
    }
    assert(queue.placed_descriptors(chain, after) =~= linked);
}

/// The buffers of a chain that are placed in free slots make up one chain, however
/// many they are.
pub(crate) proof fn lemma_tails_placed<'a, 'b>(
    queue: QueueView<'a, 'b>,
    chain: Seq<Option<VirtQueueBuffer<'b>>>,
    slots: Seq<int>,
    k: nat,
)
    requires
        k <= slots.len(),
        slots.no_duplicates(),
        forall|j: int|
            0 <= j < slots.len() ==> {
                &&& 0 <= #[trigger] slots[j] < queue.max_elements
                &&& queue.buffers[slots[j]] is None
            },
        queue.max_elements <= queue.descriptors.len(),
        queue.descriptors.len() == queue.buffers.len(),
    ensures
        model::tails_below(
            queue.placed_descriptors(chain, slots.take(k as int)),
            queue.placed_buffers(chain, slots.take(k as int)),
            queue.max_elements,
        ) == queue.chain_count() + if k > 0 {
            1int
        } else {
            0int
        },
    decreases k,
{
    let descriptors = queue.placed_descriptors(chain, slots.take(k as int));
    let buffers = queue.placed_buffers(chain, slots.take(k as int));
    if k == 0 {
        assert(descriptors =~= queue.descriptors);
        assert(buffers =~= queue.buffers);
    } else {
        let slot = slots[k - 1];
        let before = slots.take(k - 1);
        let after = slots.take(k as int);
        lemma_tails_placed(queue, chain, slots, (k - 1) as nat);
        lemma_place_one_more(queue, chain, slots, k - 1);
        lemma_descriptor_flags();
        assert(!before.contains(slot));
        let table = queue.placed_descriptors(chain, before).update(
            slot,
            queue.placed_descriptor(chain, after, k - 1),
        );
        lemma_tails_one_slot(
            queue.placed_descriptors(chain, before),
            queue.placed_buffers(chain, before),
            table,
            buffers,
            slot,
            queue.max_elements,
        );
        if k > 1 {
            let previous = slots[k - 2];
            assert(before[k - 2] == previous);
            lemma_index_of(before, k - 2);
            assert(table[previous] == queue.placed_descriptor(chain, before, k - 2));
            lemma_tails_one_slot(
                table,
                buffers,
                descriptors,
                buffers,
                previous,
                queue.max_elements,
            );
        }
    }
}

/// Taking one more slot out of a chain zeroes one more descriptor.
pub(crate) proof fn lemma_remove_one_more<'a, 'b>(
    queue: QueueView<'a, 'b>,
    slots: Seq<int>,
    i: int,
)
    requires
        0 <= i < slots.len(),
        0 <= slots[i] < queue.descriptors.len(),
        queue.descriptors.len() == queue.buffers.len(),
    ensures
        queue.without_chain(slots.take(i + 1)) == (QueueView {
            descriptors: queue.without_chain(slots.take(i)).descriptors.update(
                slots[i],
                VirtQueueDescriptor::zero(),
            ),
            buffers: queue.without_chain(slots.take(i)).buffers.update(slots[i], None),
            ..queue
        }),
{
    let before = slots.take(i);
    let after = slots.take(i + 1);
    assert forall|j: int| #[trigger] after.contains(j) <==> j == slots[i] || before.contains(j) by {
        if after.contains(j) {
            let m = after.index_of(j);
            if m < i {
                assert(before[m] == j);
            }
        }
        if before.contains(j) {
            assert(after[before.index_of(j)] == j);
        }
        assert(after[i] == slots[i]);
    }
    assert(queue.without_chain(after).descriptors =~= queue.without_chain(
        before,
    ).descriptors.update(slots[i], VirtQueueDescriptor::zero()));
    assert(queue.without_chain(after).buffers =~= queue.without_chain(before).buffers.update(
        slots[i],
        None,
    ));
}

/// Taking a chain out of the table leaves one chain less, once its last slot is
/// reached.
pub(crate) proof fn lemma_tails_removed<'a, 'b>(queue: QueueView<'a, 'b>, slots: Seq<int>, i: nat)
    requires
        queue.inv(),
        queue.is_chain(slots),
        i <= slots.len(),
    ensures
        queue.without_chain(slots.take(i as int)).chain_count() == queue.chain_count() - if i
            == slots.len() {
            1int
        } else {
            0int
        },
    decreases i,
{
    if i == 0 {
        assert(queue.without_chain(slots.take(0)).descriptors =~= queue.descriptors);
        assert(queue.without_chain(slots.take(0)).buffers =~= queue.buffers);
    } else {
        let before = queue.without_chain(slots.take(i - 1));
        let after = queue.without_chain(slots.take(i as int));
        let slot = slots[i - 1];
        lemma_tails_removed(queue, slots, (i - 1) as nat);
        lemma_remove_one_more(queue, slots, i - 1);
        assert(!slots.take(i - 1).contains(slot));
        lemma_tails_one_slot(
            before.descriptors,
            before.buffers,
            after.descriptors,
            after.buffers,
            slot,
            queue.max_elements,
        );
    }
}

/// The slots follow each other in the descriptor table, and all but the last
/// one are known to hold a buffer that lies where the descriptor says.
pub(crate) open spec fn is_walk(queue: QueueView, walked: Seq<int>) -> bool {
    &&& walked.len() > 0
    &&& forall|k: int|
        0 <= k < walked.len() - 1 ==> {
            &&& 0 <= #[trigger] walked[k] < queue.buffers.len()
            &&& queue.buffers[walked[k]] is Some
            &&& queue.descriptors[walked[k]].addr == queue.buffers[walked[k]]->0.addr
            &&& queue.descriptors[walked[k]].has_next()
            &&& queue.descriptors[walked[k]].next == walked[k + 1]
        }
}

/// A chain from the beginning of a walk goes along the walk.
proof fn lemma_walk_follows_chain(queue: QueueView, walked: Seq<int>, slots: Seq<int>, k: nat)
    requires
        is_walk(queue, walked),
        queue.is_chain_from(walked[0], slots),
        k < walked.len(),
    ensures
        k < slots.len(),
        slots[k as int] == walked[k as int],
    decreases k,
{
    if k > 0 {
        lemma_walk_follows_chain(queue, walked, slots, (k - 1) as nat);
        assert(slots[k - 1] == walked[k - 1]);
    }
}

/// A walk that leads to a slot without a buffer, or with one that lies elsewhere
/// than the descriptor says, does not begin a chain.
pub(crate) proof fn lemma_walk_off_chain(queue: QueueView, walked: Seq<int>)
    requires
        is_walk(queue, walked),
        !(0 <= walked.last() < queue.buffers.len()) || queue.buffers[walked.last()] is None
            || queue.descriptors[walked.last()].addr != queue.buffers[walked.last()]->0.addr,
    ensures
        !queue.has_chain(walked[0]),
{
    if queue.has_chain(walked[0]) {
        let slots = queue.chain_from(walked[0]);
        lemma_walk_follows_chain(queue, walked, slots, (walked.len() - 1) as nat);
    }
}

/// A walk through more slots than there are does not begin a chain.
pub(crate) proof fn lemma_walk_too_long(queue: QueueView, walked: Seq<int>)
    requires
        is_walk(queue, walked),
        walked.len() > queue.buffers.len(),
    ensures
        !queue.has_chain(walked[0]),
{
    if queue.has_chain(walked[0]) {
        let slots = queue.chain_from(walked[0]);
        lemma_walk_follows_chain(queue, walked, slots, (walked.len() - 1) as nat);
        lemma_distinct_slots(slots, queue.buffers.len());
    }
}

/// Where a walk comes back to a slot, it goes on as it did before.
proof fn lemma_walk_repeats(queue: QueueView, walked: Seq<int>, a: int, b: int, n: nat)
    requires
        is_walk(queue, walked),
        0 <= a < b,
        b + n < walked.len(),
        walked[a] == walked[b],
    ensures
        walked[a + n] == walked[b + n],
    decreases n,
{
    if n > 0 {
        lemma_walk_repeats(queue, walked, a, b, (n - 1) as nat);
        assert(walked[a + n - 1] == walked[b + n - 1]);
    }
}

/// A walk that leads to the last descriptor of a chain is the chain.
pub(crate) proof fn lemma_walk_to_tail(queue: QueueView, walked: Seq<int>)
    requires
        is_walk(queue, walked),
        0 <= walked.last() < queue.buffers.len(),
        queue.buffers[walked.last()] is Some,
        queue.descriptors[walked.last()].addr == queue.buffers[walked.last()]->0.addr,
        !queue.descriptors[walked.last()].has_next(),
    ensures
        queue.is_chain(walked),
{
    assert forall|a: int, b: int| 0 <= a < b < walked.len() implies walked[a] != walked[b] by {
        if walked[a] == walked[b] {
            lemma_walk_repeats(queue, walked, a, b, (walked.len() - 1 - b) as nat);
            assert(queue.descriptors[walked[a + (walked.len() - 1 - b)]].has_next());
        }
    }
}

/// Processing an element of the used ring leaves the chains as they are.
pub(crate) proof fn lemma_used_taken_chains(queue: QueueView, head: int)
    ensures
        queue.used_taken().has_chain(head) == queue.has_chain(head),
        queue.has_chain(head) ==> queue.used_taken().chain_from(head) == queue.chain_from(head),
{
    let taken = queue.used_taken();
    assert forall|slots: Seq<int>| queue.is_chain_from(head, slots) == #[trigger] taken.is_chain_from(
        head,
        slots,
    ) by {}
    if queue.has_chain(head) {
        let slots = queue.chain_from(head);
        assert(taken.is_chain_from(head, slots));
        lemma_chain_unique(queue, head, slots, taken.chain_from(head));
    }
    if taken.has_chain(head) {
        assert(queue.is_chain_from(head, taken.chain_from(head)));
    }
}

/// The slots that a chain goes to are free, and no two are the same.
pub(crate) proof fn lemma_next_slots<'a, 'b>(queue: QueueView<'a, 'b>, n: nat)
    requires
        queue.inv(),
        n <= queue.free_slots().len(),
    ensures
        queue.next_slots(n).len() == n,
        queue.next_slots(n).no_duplicates(),
        forall|k: int|
            0 <= k < n ==> {
                &&& 0 <= #[trigger] queue.next_slots(n)[k] < queue.max_elements
                &&& queue.buffers[queue.next_slots(n)[k]] is None
            },
{
    lemma_free_below(queue.buffers, queue.max_elements);
}

} // verus!
